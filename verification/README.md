# dartdetect

Dart scoring and game engine.

- `src/` is the verified library: dart shots and their points, the X01 rules
  (busts, double-out, checkout), turn-based game sessions with their turn
  records, the snapshots sent to clients, and the integer side of the board
  (sector order, ring multipliers). The laws of the games (accounting of
  points, the winner's checkout, frozen finished games, well-formed sessions)
  are proof functions next to the rules they speak of.
- `app/` is the server around it: the floating-point impact locator and board
  geometry, the Axum WebSocket server, and the interactive simulation client
  (`simu-cli` as first argument).

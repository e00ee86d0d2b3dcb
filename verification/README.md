# world_sim

A 2D world simulation for autonomous mobile robots: a finite map of thick
walls, a runtime that drives one simulation module over it, and a
differential-drive robot with a lidar.

- `src/` is the verified core, written in Verus: body identifiers and the
  body store (`body`), the step count of a run (`body::StepCounter`), the
  uniform-grid spatial index over walls (`grid`), the map file version and
  the random-generation budget (`map`), the viewer's play/pause/speed state
  (`playback`) and the error types (`error`).
- `app/` is ordinary Rust around it: all `f32` geometry, motion, ray casting
  and sensing, JSON persistence, random wall placement and the viewer
  commands.
- `tests/` exercises the verified core.

# physics_core

The discrete side of a small rigid-body physics engine for a Bevy game,
written in Verus and verified: which collider pairs the broad phase hands on,
which pairs are in contact and which contact events follow, the warm-starting
impulse cache, when bodies sleep and wake, which bodies the contact and joint
solvers work on, the key mapping and camera-mode switch of the player
controller, and the bounded frame-rate graph.

- `src/` is the library. Each module states its contracts over `Seq`, `Map`
  and plain values; the modules with laws of their own (everything but
  `pair_set` and `query`) end with the laws that they prove (`law_*`).
- `tests/` runs the library on concrete values.
- `app/` is the game around it: the Bevy systems, the floating-point geometry
  (contact manifolds, ray casts, integration, inverse kinematics) and the
  rendering and UI. It hands the library plain values (entity handles, layers,
  flags, overlap tables) and acts on what comes back.

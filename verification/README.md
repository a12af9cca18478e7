# bevy_liminal

Mesh outlines for Bevy, drawn either by jump flooding (screen-space silhouette
expansion) or by hull extrusion (world- or screen-space vertex extrusion).

The crate is split in two:

- `src/` is a verified library holding the decision logic of the renderer:
  - `outline_api`, `outline_builder`: the outline configuration model and the
    type-state builder (the mode follows from the builder's marker type; only hull
    builders can choose an overlap mode);
  - `active`: which outline methods are present, and its algebra;
  - `render_cache`: the render-world outline cache, its change detection and the
    per-frame extraction that keeps the recorded methods in step with the cache;
  - `propagation`: which descendants receive, lose or resynchronise a propagated
    outline, and which ancestor a newly attached mesh inherits from;
  - `queue`: which visible meshes enter the mask and hull phases;
  - `flood`, `node`: jump-flood pass count, step table and ping-pong textures, and
    what the outline node renders for a view;
  - `batching`: indirect draw metadata;
  - `laws`: the properties that relate these functions, proved.
- `app/` is the Bevy plugin around it: ECS systems and observers, GPU pipelines
  and passes, and every floating-point computation (widths, colors, shader
  factors, owner ids), which the verifier does not reason about.

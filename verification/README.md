# render

The platform-independent core of a Metal/Cocoa UI renderer, verified with Verus.

- `src/metal_buffer.rs`: buffers that rotate over three device-buffer slots, and when an upload needs a new device buffer.
- `src/texture.rs`: CPU-side textures, resizing, upload parameters.
- `src/cx.rs`: the renderer context.
- `src/draw.rs`: the per-frame traversal of the draw-list tree, as a list of draw steps.
- `src/timer.rs`: timer ids and the queues of start and stop requests.
- `src/event_loop.rs`: per-event and per-paint decisions of the event loop.
- `src/splitter.rs`: the splitter widget's interaction state machine.
- `app/`: the Metal and Cocoa calls, the event loop driver and process spawning; it builds on macOS only.

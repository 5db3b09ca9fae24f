# debug-service

A debug service for embedded controllers, verified with Verus. It takes log frames out of a ring
buffer and hands them, whole and in order, to the task that sends them over eSPI.

- `src/transport`: the message that carries one frame, the bounded channel to the eSPI task, and
  the transport that puts single frames on it.
- `src/service.rs`: the service. It notes requests to flush and forwards the frames in the ring.
- `src/mock_espi_service.rs`: a stand-in for the eSPI task, with its staging buffer and statistics.
- `src/buffers.rs`: the fixed-capacity byte vectors of `heapless`, and the bytes they hold.
- `src/frames.rs`, `src/laws.rs`: the vocabulary of the contracts, and the laws proved over it.
- `app`: the embassy tasks around the library, and its registration on the comms bus of
  `embedded_services`.

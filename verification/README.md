# mobile_cam

The verified core of MobileCam, a server that lets a phone act as a camera over Wi-Fi:
streamers send video to viewers over WebRTC, controllers steer the streamers, and the
server relays the signalling messages between them.

- `src/sparse_set.rs`: index-keyed storage with stable indices; a freed index is handed
  out again (most recently freed first) before any fresh one, and fresh indices never
  skip a number.
- `src/app_state.rs`: the connected streamers, viewers and controllers, and what the
  server knows of each.
- `src/text.rs`, `src/server.rs`: the text command protocol (`a` .. `l`), how a text
  message is routed, and what connecting and closing send.
- `src/messages.rs`, `src/server/streamer.rs`, `src/server/viewer.rs`,
  `src/server/controller.rs`: the messages of the binary protocol, the close causes with
  their codes and descriptions, and how each kind of session's messages are routed.
- `src/frontend.rs`: which static file answers a request path, and its content type.
- `app/`: the HTTP and WebSocket server around the library.

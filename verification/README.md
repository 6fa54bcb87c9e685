# p2p_chat

A small chat between two people. A signaling server lets two clients meet in a
room and tells each the UDP address of the other; the clients then open a link
through their NATs and talk to each other directly.

- `src/` is the logic, verified with Verus.
  - `text`: whitespace, words and upper case, and text read out of packets.
  - `network`: the client. `network::p2p` is the link to the peer,
    `network::client` what the network task does about its inputs,
    `network::laws` what holds of them.
  - `server`: the signaling server. `server::rooms` holds the rooms,
    `server::codes` makes their codes, `server::session` serves one connection, `server::registration` takes in the
    UDP packets, `server::laws` says what holds of them.
  - `protocol`: what client and server write is read as it was meant.
  - `app`: the state behind the chat window.
  - `channel`: the channels between the window and the network task.
- `app/` holds the sockets, the tasks and the window. Hangul
  is shown with the font `assets/fonts/Pretendard-Regular.otf`, read from the
  directory in which it runs.
- `tests/` runs the library.

# p2p-chat

A peer-to-peer chat whose peers also keep one text file in sync.

- `src/` is the library, verified with Verus:
  - `frame`: the framing of the file-sync streams, and the reading of a frame piece by piece;
  - `patch`: patches as text, made and applied with diffy;
  - `sync`: the content known to be in sync, and what frames and edits do to it;
  - `session`: the sending side, and what a whole stream does to the receiving side;
  - `node`: the bootstrap address and the events of the network;
  - `text`: chat lines, message ids, numbers.
- `app/` is the program: command line, console, file, threads and network.
- `tests/` runs the library with the real crates linked.

What is believed without proof are the calls into diffy, libp2p's `Multiaddr` and a few functions of
std. Each stands in a small item of its own whose comment says what is claimed of the call.
The functions named `law_..` state what holds of the library as a whole.

# Camera Fodder

The rules of a small random video chat service, as a verified library, and the server around
them.

- Guests come without an account; accounts are kept under an email address with an Argon2
  password hash.
- People are matched at random into rooms of up to eight, two by default. A room whose host
  keeps control over who is let in is never matched with someone who keeps it too.
- A room can have a share link. Without one, people ask to be let in and someone in the room
  accepts.
- Whoever wants to be found is listed in the directory while they are online, with the room
  they are in. Someone who is in no room can be asked for a chat, which opens a room for two.
- A connection that is silent for too long ends, and whoever it belonged to leaves the room.

## Layout

- `src/` is the library. It holds the state and decides; it opens no socket and reads no file.
  Every operation is stated as a relation between the state before it, the state after it and
  its answer, and the code is proved to keep to it.
  - `text`, `time`, `chance`, `passwords`: names, points in time, random draws, password hashes.
  - `state`, `accounts`, `tables`, `ordering`, `events`, `error`: what is kept and what is sent.
  - `sessions`, `rooms`, `join_requests`, `direct_chats`, `inbox`, `directory`, `presence`,
    `sockets`, `settings`: the operations.
  - `operations`, `invariants`, `links`: everything that can happen, and what holds throughout.
  - `laws`: what the service promises.
- `app/` is the server: HTTP, websockets, JSON and the file in which accounts and sessions are
  kept.
- `tests/` runs the library.

## Settings

`BIND_ADDR` is the address to listen on; without it, `PORT` is the port on every interface, 3000
by default. `AUTH_STORE_PATH` is the file for accounts and sessions, `data/auth.json` by default.
Everything else is forgotten when the server stops.

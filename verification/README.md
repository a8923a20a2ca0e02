# NutBlaster

The rules of a matchmaking and signalling server for peer-to-peer games: players
host lobbies, look for them and join them, talk to each other through the server
until they are connected, and leave again. The rules are written in Verus and
proved; what goes over the wire is left to the program around them.

There are two servers. They share the names of things (`id`), the metadata that
players and lobbies carry and the reasons for which a client is let go
(`protocol`).

- The event-loop server (`blaster`) keeps track of sessions, lobbies and players
  and limits how much of anything an address, a lobby or a player may do
  (`tokens`). `blaster::model` says what each operation makes of the server,
  `blaster::eventloop` carries it out, `blaster::consistency` shows that what the
  server holds always makes sense, `blaster::limits` that it never grows beyond
  its limits, and `blaster::laws` what can be relied on.
  `session` says what a client's session does about each thing that happens to
  it.
- The mailbox server (`mailbox`) lets messages wait until they are fetched, and
  knows swarms, lobbies that players are put into without having asked for one.
  `mailbox::connection` asks the server one question at a time,
  `mailbox::dialogue` says what becomes of a client's wish when all of them are
  answered, and `mailbox::round` in which order a connection goes about its work.

Maps are kept as lists of pairs in the order in which the keys came in (`assoc`,
`table`), players in an `IndexMap` (`roster`). Time is handed in as nanoseconds on
a clock that never goes back (`clock`).

`app/` is the program: it reads the configuration and the clock, owns the sockets
and the threads, and turns JSON into payloads and back.

# stream_server

A file server that gives access to files while they are still being uploaded: a reader gets the
blocks that have come and then each further block as it is received.

- `src/` is the verified core.
  - `video_store`: the stored files, their lookup, removal and search.
  - `handlers`: what is done with each kind of request, and how it is answered.
  - `upload`, `blocks`: how the chunks of a request's body become the blocks of a file.
  - `numbers`: the number streams with which a server can be tried out.
  - `paths`, `status`: wildcards in paths, and HTTP statuses.
  - `channel`, `headers`, `trie`: what is believed of the broadcast channel, the HTTP headers and
    the ternary search trie.
  - `laws`: what holds of the server's answers taken together.
- `app/` is the program around it: the HTTP server, and the producer and consumer clients. The
  store is shared between requests behind a lock.
- `tests/` runs the library with the real channel, trie and headers.

A file holds as many blocks as are configured. A writer waits when they are full, since a file
keeps all of its blocks for readers to come.

# remo

Remote control of apps over the debugging protocol of browsers. An app embeds a server that a
browser's developer tools, a command line and agents can talk to: they invoke the capabilities that
the app registers, browse its views, capture its screen, and look into its files, databases and
settings.

- `src/` is the verified library: which domain answers which request, how expressions typed into
  the console are read, how views, settings and rows become JSON, how clients read replies. What it
  states is in the contracts of its functions and in the public proof functions beside them.
- `app/` is ordinary Rust around it: sockets, files, the database, the system's stores, and the
  command line. The library tells it what to do and takes plain values back.
- `tests/` runs the library with the crates that it is built on.

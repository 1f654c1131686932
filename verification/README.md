# rsengine

Game-server building blocks for a 530-era RuneScape-style engine, written in Verus.

`src/` is the verified library:

- `packet`, `packet_laws`: the byte buffer with its readers and writers, and what a read
  gives back of a write.
- `crc`, `base37`, `bits`, `rsa`: checksums, name encoding, bit ranges, the login block.
- `ring`, `linklist`, `doubly_linklist`: arena-based circular lists.
- `script_*`, `math_ops`: compiled scripts, their loading, state, pointers and the
  interpreter loop with its instruction handlers.
- `param_helper`, `config_type`, `obj_type`, `loc_type`, `config_text`, `obj_writer`,
  `loc_writer`, `writer_laws`, `decode_checks`: cache configs, their text form, and the
  checks that tell whether a config can be decoded and written.
- `pack_file`, `pack_laws`, `namemap`, `config_names`, `symbols`, `compiler`: pack files,
  name lists, the script source crawl, the symbol file and the compiler check.
- `js5`, `server_messages`: the cache protocol and the outgoing game messages.

`app/` holds what the library cannot: the program entry, file and network I/O, the cache
server loop and the floating-point math instructions. `tests/` runs the library.

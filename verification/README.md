# background_studio

The host of a family of background plugins: it keeps a library of media,
installs, starts and stops the plugins, gives each of them a profile of display
settings and a slideshow, and serves the media to them on the loopback address.

- `src/` is the library. It holds the rules, the parsers and the state of the
  host, with contracts that Verus proves. What it has from other crates stands
  behind small functions whose doc comments say what is taken on trust.
- `tests/` runs the library on concrete values, with those crates linked.
- `app/` is the program around it: files, the network, processes, pipes, the
  media server's socket and the window. It performs what the library decides
  and hands the outcome back.

## The modules

| Modules | What they hold |
| --- | --- |
| `text`, `json`, `records`, `table`, `paths`, `stamp`, `digest`, `address` | values that the others are made of |
| `models`, `media`, `migrate` | the media catalogue, imports, folders, and the taking over of older libraries |
| `media_server` | tokens, addresses, byte ranges and answers |
| `profile`, `form` | display settings, their schema, and the form that edits them |
| `protocol`, `transport`, `manifest` | what is said between host and plugin, and what a plugin says of itself |
| `catalog`, `plugins`, `package`, `host_update`, `proxy` | which plugins there are, how they are installed and updated |
| `procedures` | the order of an installation and of a greeting |
| `host_core` | the state of the whole host |
| `console`, `desktop`, `textures`, `thumbnails` | what the window shows |
| `config` | where the data lies |

# tuiplay

A terminal music player. It browses directories, keeps a queue, shows the artwork of tracks and
obeys media keys; an `mpv` process plays the sound.

## Layout

`src/` is the library: everything that the player decides. It does no input or output of its own.

- `model`, `app`, `keys`: the player as a state machine. Each operation changes the state and
  says what is to be done outside (`Effect`); `model` states what each one does.
- `laws`: what holds of the player whatever the user does.
- `entries`, `path`, `text`: directories, paths as bytes, and the order of names.
- `mpv`, `json`: what the audio engine is told, and what it reports.
- `double`: doubles carried as their bits. The player needs their order and how they round, and
  gets both from whole numbers.
- `state`, `theme`: the two files that the player reads, and the one that it writes.
- `layout`, `view`: what is on the screen, and where.
- `artwork`: finding the artwork of a track, and keeping it.

The library is verified with Verus. Calls into other crates (`serde_json`, `ratatui`, `image`) and
a few string functions of the standard library stand behind small functions whose contracts are
taken on trust; each says which function it calls and what it claims of it.

`app/` is the program: the terminal, the disk, the engine's socket and the desktop's media
controls. It performs the effects that the library asks for. It also does the only arithmetic on
floating-point numbers: changing the volume, and how far a progress bar is filled.

`tests/` runs the library on examples.

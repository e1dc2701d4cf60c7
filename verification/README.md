# tmux-pane-border

A wrapper for tmux panes: it runs a program in a terminal of its own and draws a
coloured border around it, inside the pane. The border is blue while the pane has
the focus and grey while it has not.

```
╭──────────────╮
│ the program  │
│ runs here    │
╰──────────────╯
```

The inner terminal is two columns and two rows smaller than the pane. Absolute
coordinates in the program's output move by one row and one column on their way
out, mouse events by as much on their way in, and border cells that an erase or a
scroll damages are drawn again.

## Layout

`src/` is a library, verified with Verus:

| module         | what it holds                                                    |
|----------------|------------------------------------------------------------------|
| `vt_model`     | what the output filter does, byte by byte, as a mathematical model |
| `vt_filter`    | the filter itself                                                |
| `vt_laws`      | what holds of the filter as a whole                              |
| `mouse`        | mouse events, from outer to inner coordinates                    |
| `paste`        | tells pasted text, which holds no events, from other input       |
| `border`       | the frame and its colours                                        |
| `border_laws`  | what holds of the frame whatever its colour                      |
| `dimming`      | faint rendition for panes without the focus                      |
| `session`      | the decisions of the main loop, as a state machine               |
| `session_laws` | what holds of a session as a whole                               |
| `signal`       | flags for signals that came in                                   |
| `config`       | the settings and their defaults                                  |
| `text`         | bytes, decimal numbers and separated fields                      |
| `codes`        | the bytes of terminal sequences by name                          |

Rows and columns are 16 bits wide; a coordinate that the program itself gives as
65535 wraps when it moves by one. A colour is read
as `#` and three components of two bytes; one that is cut inside a character
cannot be read, and `can_read_color`, `Session::can_paint` and
`Session::can_step` tell.

Two functions of the standard library are trusted to do what their contracts
say: `String::push` (in `text`) and `std::str::from_utf8` (in `mouse`).

`app/` is the program: it owns the terminals, the child process, the signals and
the configuration file, and does what the session asks for.

## Dimming

With `dim_inactive` on, what the program writes while its pane has not the focus
is faint: the wrapper sets SGR 2 when the focus is lost and at an inactive start,
sets it again after every sequence that may have reset it, and lifts it with
SGR 22 when the focus returns, and when a rendition is restored that was saved
faint. Border cells are never faint.

For what is on the screen already, the program is made to repaint when the focus
changes: its terminal is a row shorter until the next poll. Lines that it does
not repaint, such as the earlier output of a shell, keep their look.

## Configuration

`~/.config/tmux-pane-border/config.toml`; every option may be left out:

```toml
[border]
style = "rounded"          # rounded | heavy | double | single | ascii
active_color = "#61afef"   # border colour with the focus
inactive_color = "#5c6370" # border colour without it

[behavior]
dim_inactive = false       # dim content of inactive panes
```

# procmon

A terminal process monitor: two plots of the recent CPU and memory usage
above a table of the running processes, which can be sorted by any column,
scrolled, and from which a process can be killed.

The verified library in `src/`:

- `text`: decimal numbers and human-readable memory sizes.
- `order`: the order of texts and the total order of CPU usage values.
- `process`: the table rows, naming their users, and the stable sort.
- `state`: the plot histories, the selection, refreshing, and the keys.
- `screen`: the header, disk column, memory axis and kill prompt texts.
- `layout`: the division of the screen and the area of the pop-up windows
  (through ratatui's `Layout`).
- `laws`: properties that span the operations.

`app/` reads the system (sysinfo) and the keyboard (crossterm), draws the
screen (ratatui), and hands plain values to the library.

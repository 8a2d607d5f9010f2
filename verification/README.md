# rattus

A modal numpad mouse: the numpad moves the pointer, clicks, or types arrows,
depending on its modes. The verified library (`src/`) holds its decisions and
data handling, each with a contract proved by Verus:

- `rat`: the modes and what every numpad key does in them: the direction of
  each digit key, move speeds, clicks, and the mode keys (numpad 0 and enter
  hold fast and slow movement while they are down; numlock and divide toggle
  the arrow and mouse modes);
- `data_logger`: the mouse actions recorded while the mouse is used, the
  lines of the activity log, and the grouping of logged actions into
  sequences labelled by the click that ends them;
- `dataset`: training data and its split, after a random shuffle, for cross
  validation;
- `cursor`: the position bookkeeping of the vector iterator handed to the
  input injection API, and the reading of a key state.

`app/` is the program around it: the keyboard hook, the polling loop, input
injection, files, and the floating-point parts of the data preparation.

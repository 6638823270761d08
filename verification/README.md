# wzrd

The core of wzrd, a tiling and floating window manager for X11, as a verified library.

`src/` holds the window manager's data structures and rules, each function with a contract that
Verus proves:

- `cycle`: the ordered, focus-tracking collection behind workspaces and zones, with its focus
  history and identifier index;
- `workspace`: a workspace's clients, icons and zones, and the move/resize buffer;
- `client`: a managed window's state, including the focus/urgency/stickiness state machine;
- `stack`: stacking layers, the stacking order of a workspace, and the client lists in order
  of management and of stacking;
- `layout`: layout kinds, their configurations, layouts with their per-kind data, the
  arrangements of the tiling layouts, and the margin, gap and border adjustments;
- `zone`: the tree of zones a workspace is divided into (clients, tabs and layouts), its
  well-formedness, and the walks up and down it;
- `arrange`: the walk down a zone tree that places its clients, tabs and layouts, given how
  each layout disposes of its zones, stated in full as the placements it gives and the
  changes it makes to the zones;
- `registry`: the managed clients by window, with the maps between windows, frames and
  processes;
- `manipulate` and `dispatch`: how a floating client's region is snapped, nudged, stretched,
  moved, resized and placed on request, how a newly managed window is set up, where a jump goes, and how mouse
  events, dock struts and unmanaged windows' layers are decided;
- `winsys`: geometry (points, dimensions, regions, paddings), screens and their struts,
  input, events, the client messages that stand for requests, hints and size hints (made
  sense of and applied, but for their aspect ratios), and window types;
- `decoration`, `placement`, `partition`, `rule`, `change`, `compare`, `error`,
  `identify`, `util` (index arithmetic, mouse-binding parsing, the identifier hasher) and
  `consume` (finding the process that spawned a client).

Laws that span several operations are stated as public proof functions named `law_*`.

`app/` holds what stays outside the verified library: starting processes, reading the proc file
system and the keyboard map, and the steps of layouts and size hints that compute with
floating point.

`tests/` exercises the library on concrete values.

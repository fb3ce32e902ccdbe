# burp

Beer paths on road graphs: routes from a start to an end node that pass a
point of interest (a bar, a café, a restaurant) and are at most `1 + ε`
longer than the shortest route.

`src/` is the verified library:

- `types` — points of interest, amenities, and graph nodes carrying them.
- `input` — the reader state machines that turn GeoJSON parser events into
  a road graph (`GraphWriter`) and into points of interest (`PoiWriter`),
  the feature property maps, and the road filters.
- `graph` — placing points of interest on nodes, assembling beer paths
  from the two searches' results, and the distance oracle's block pairs
  and build state machine.
- `ui` — view state of the map viewer that does not depend on drawing.

`app/` is the command-line program: GeoJSON parsing, edge lengths,
spatial indexes, the floating-point searches and detour tests, and file
formats.

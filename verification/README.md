# zeus

The verified core of a small city-builder engine, written in Verus.

- `src/message.rs`, `src/pod.rs`, `src/kinds.rs`: network messages. A message
  has a header (its kind and total size) and a body used as a stack of plain
  values. Every value takes as many bytes as it occupies in memory, integers
  and booleans as their memory image, and the header as many bytes as a
  `MessageHeader` occupies. Pulling gives back the last value pushed; the bytes
  of a message read back as the same message.
- `src/terrain.rs`: the vertex layout of a generated terrain mesh and its index
  buffer. Every index names a mesh vertex, and the six indices of each grid
  square name the corners of its two triangles, each triangle starting at a
  vertex that carries its own normal.
- `src/water.rs`: the vertex layout of the water surface; each vertex records
  the offsets to the other two vertices of its triangle.
- `src/cube.rs`, `src/cuboid.rs`, `src/lights.rs`, `src/topology.rs`,
  `src/noise.rs`, `src/entity.rs`: index tables, shadow cascade labels, the
  polygon mode cycle, noise seeds and shared entity vocabulary.
- `app/`: the parts that use floating point, random numbers or display
  formatting (value noise, terrain colors and normals, float water vertices,
  error messages).

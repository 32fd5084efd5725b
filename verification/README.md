# dzahui

Dzahui shows meshes read from Wavefront `.obj` files in an OpenGL window,
with text drawn from a bitmap font, and logs what it does to numbered files.

* `src/` is the verified library (Verus). Every function there carries a
  contract: how `.obj` vertex and face lines are read, which coordinates of a
  mesh are constant, which vertices lie on the boundary of a plane mesh, how
  a line of vertices becomes a bar of triangles, how a `.fnt` font
  description is read, which OpenGL calls bind a drawable and how a shader
  program is built step by step, the window's settings and what its event
  loop does with each input, and how log records are formatted and spread
  over files.
* `app/` performs the input and output: it opens files and windows, makes
  the OpenGL calls, does the float geometry (camera, picking cone, text
  quads) and runs the logger's thread.
* `tests/` runs the library on concrete inputs.

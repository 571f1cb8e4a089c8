# rusty_pdf

A library for writing PDF files, verified with Verus.

- `src/` is the library, checked by Verus: each function is proved against its contract
  (a few that only build values state no more than their types do). It covers the PDF
  objects and their byte encodings, generic dictionaries and arrays whose serialisation
  records each indirect object in the cross-reference table at the offset of its header,
  the file header, cross-reference section and trailer, text string encodings, ASCII85,
  PDF dates, the page tree (page counts and kids filled in when it is written), page
  resources, version and feature tables, and the standard security
  handler (RC4, MD5-based keys, permission flags).
  Calls into `md5`, `regex`, `hex` and `flate2`, and two calls into std (`String::push`
  and the text of an I/O error), sit behind small trusted wrappers: their contracts, which
  name what those calls compute, are assumed, not proved.
- `app/` is a program around the library: the types that hold floating-point values
  (numbers, colours, geometry, page sizes, gradients, annotations), the error type with `Display`,
  output through a mockable file system, and a `main` that writes a one-page document.
- `tests/` runs the library on concrete values.

## What the original does not hold, and what is left out

- The original refers to modules it does not contain. Where the library needs them it has
  its own: `object_number` (the number of an indirect object), `xref` (the lines of the
  cross-reference section) and `file_identifier` (how the file identifier is chosen).
- Left out, in neither `src/` nor `app/`:
  - `PdfFile` and its methods: they use fields and modules the original does not define.
  - `Gradient::create_pattern` and `create_soft_mask_for_shading`: float geometry written
    against a `PDF` type the original does not define.
  - The dictionary accessors that downcast a dynamically typed value (`get_t`, `get_t_mut`,
    `push_to_array`) and the `PdfObject` methods that read or set object numbers through
    `Any`: the library's dictionaries and arrays are typed by their values instead, and
    `get_mut` gives a value to change in place.
- The page resources keep each category as names in insertion order with no name twice,
  rather than in a `HashMap` keyed by `String`, of which Verus proves nothing useful; the
  order in which the original built the categories was unspecified.

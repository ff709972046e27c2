# Foodly backend

The backend of Foodly, a collaborative recipe manager: recipes with sections,
ingredient lines, tags, images and ratings, shared with editors and viewers,
sorted into per-user categories.

The crate is split in two:

- `src/` is the library, verified with Verus. It holds the rules of the API:
  payload validation, the permission matrix, recipe search planning (the SQL
  text and its bound parameters), paging, category ordering, the mapping
  between stored rows and API models, content-addressed image storage, the
  in-memory recipe store and the error replies.
- `app/` is the server around it: the Axum routers and handlers, the
  PostgreSQL access through SQLx, the file system, configuration and the
  serde copies of the models. Each handler reads, calls the library and
  answers with what the library decided.

`tests/` runs the library on concrete values.

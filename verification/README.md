# gdio

A command-line manager for Godot Engine projects, editor versions, addons and
export templates, with its core written in Verus and proved against its
contracts.

## Layout

- `src/` is the verified library. Each module states what its functions return
  over spec functions and views (`Seq<char>` for text, `Map` for the
  registries), and proves it:
  - `text`, `numparse`, `version`: string handling, number parsing, Godot
    version strings and their ordering;
  - `config`, `strmap`, `shared`, `projects`, `editors`: the registry of
    editors, projects, addons and itch.io settings;
  - `project`, `addons`, `repository`, `sync`, `globals`, `exclude`,
    `addon_install`, `addon_list`: `project.godot` and `.gdio` files, the addon
    store, linking and syncing;
  - `zipdir`, `template_install`, `templates`, `template_build`, `platform`:
    export templates, the ZIP central directory and ranged downloads;
  - `upload`, `launch`, `gdre`, `gut`, `ci`, `shell`, `secure`, `news`,
    `search`, `tags`, `releases`, `github`, `store_api`, `recovery`, `builder`:
    the remaining commands' decisions;
  - `laws`, `line_laws`, `tag_laws`, `plugin_laws`, `template_laws`,
    `link_laws`: properties that span several functions (round trips such
    as linking then unlinking an addon, idempotence, the template table
    listing each file once).

  Each operation on the registry states in its contract which fields it
  changes and that every other field stays as it was.
- `app/` is the program around it: argument parsing, files, the network,
  terminal interfaces and serialisation. It hands the library plain values
  and acts on what comes back.
- `tests/` runs the library on concrete values.

Calls into other crates (`timeago`, `unicode-width`, `flate2`, `getrandom`)
and a few `std` functions stand behind small trusted wrappers whose doc
comments say what their contracts claim.

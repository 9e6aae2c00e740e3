# oxc_tailwindcss

Tailwind CSS v4 class-name primitives and the class-string lint rules built on them, written in
Verus: every function under `src/` carries a contract that Verus proves.

## Layout

- `src/` — the verified library.
  - Text and parsing: `text`, `segment` (top-level splitting, arbitrary-value checks and
    decoding), `numbers` (what `str::parse` accepts), `classes` (the classes of a class string
    and their syntactic parts), `candidate` (candidates and variants parsed against a design
    system, and printed back).
  - Design systems: `collections` (the hash maps and sets, behind trusted wrappers),
    `variants`, `design_system`, `css` (the stylesheet scanner), `config` and `loader` (applying
    a stylesheet's `@theme`, `@utility`, `@custom-variant` and related blocks), `variant_order`.
  - Compilation and canonical spellings: `compile` (the properties a utility sets, value and
    modifier checks, compiled rules and conflicts), `canonical` (canonical variants, arbitrary
    properties, legacy theme paths, shorthand collapses), `canonical_utility` (the canonical
    form of a candidate's variants and utility, from the answers to its numeric questions),
    `theme_functions` (legacy `theme(..)` functions as theme variables), `collapse` (repeats
    dropped and shorthands collapsed, one step at a time), `pattern` (rule patterns, behind
    trusted wrappers of `lazy-regex`).
  - Lint rules: `lint` (which string literals hold classes), then one module per rule. The
    positions they report are byte offsets into the class string, as `str` slicing takes them.
- `tests/` — tests of the library on concrete inputs.
- `app/` — what the library leaves out: reading stylesheets and packages from disk, caching
  loaded design systems, and the answers to the numeric questions of compilation and
  canonicalization, which read numbers as floating-point values.

## Built-in utilities

Tailwind's lists of built-in utilities are not included: a design system knows the utilities
its stylesheets declare with `@utility` and those that `DesignSystem::register_utilities`
adds, and nothing else. Built-in class names are therefore unknown to the lint rules until a
caller registers them.

# mockall_derive

The code generator behind a `mock!` macro: it reads the description of a structure and of
the traits that it implements, and writes a mock structure on which expectations can be
set.

The library in `src/` is written in Verus.  Its contracts say, token by token, what is
generated for a description, and which descriptions are refused and why.

- `tokens`: token streams and the sequences of tokens that they stand for
- `words`: the words and names that generated code is made of
- `generics`: generic parameter lists
- `ast`: the parts of a description
- `readable`: which tokens can be read
- `syntax`: reading Rust syntax, by way of `syn`
- `parse`: reading a description
- `method_types`, `method`: the code that mocks one method
- `structure`: the mock structure
- `trait_impl`: the mock implementation of a trait
- `mock`: the whole mock
- `error`: what cannot be mocked
- `laws`: what holds of the generated code as a whole

`app/` expands the macro.

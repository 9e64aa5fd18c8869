# dynamodb_expression

Builds DynamoDB condition, filter, key condition, projection and update
expressions, with expression attribute names and values handled for you:
names in paths become `#0`, `#1`, ..., values become `:0`, `:1`, ..., and the
built `Expression` lists what each placeholder stands for.

The library under `src/` is written in Verus and verified:

- `path`: document paths such as `foo[3][7].bar`, parsed from text and
  rendered back.
- `value`: scalars, sets (kept sorted, without repeats), maps (sorted by
  name, a later entry for a name replacing an earlier one) and lists, with
  their rendering and structural equality.
- `condition`, `operand`, `key`: conditions, their operands, and key
  conditions.
- `update`: `SET`, `REMOVE`, `ADD` and `DELETE` clauses and their actions,
  and how updates combine.
- `expression`: the builder that replaces names and values by placeholders
  while it collects them, and the built `Expression`.
- `text`: decimal and exponent rendering of integers and other text helpers.

JSON quoting (serde_json), base64 (the base64 crate) and `Debug` quoting are
called through a few trusted wrappers in `value::encode`.

`app/` holds what depends on the AWS SDK types: conversion of values to and
from `AttributeValue`, handing a built `Expression` to the SDK's input
builders, and numbers from floats.

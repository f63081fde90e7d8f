# streaming_meta

The decisions of the meta node of a streaming database, and of a few services beside it, written
in Verus: every function states what it does to the state and what it returns, and the statements
are proved.

The library does no input or output. It holds the state as plain values, computes the next state,
and hands back what others have to do: messages to be sent, requests to be made, files to be
opened, callers to be told. `app/` performs these and hands the answers back.

## Modules

- `catalog`: databases, schemas, relations, users and privileges. Requests start, finish and cancel
  the creation of relations, drop them with what depends on them, rename and move them, hand them
  to other owners, grant and revoke. `catalog::laws`, `catalog::drop_laws`,
  `catalog::privilege_laws`, `catalog::move_laws` and `catalog::load_laws` state what holds across
  requests: a cancelled creation leaves no trace, a restricted drop takes nothing along, a cascading
  one leaves nothing behind that depends on what is gone, a revocation follows the grants.
  `catalog::ready` tells whether a request can be made.
- `barrier`: scheduling barriers, resolving the actors they reach, completing and committing them in
  order, recovering. `barrier::laws` states that epochs stay in order and that the uncommitted
  changes of the barriers in flight are accounted for.
- `fragment`: taking the fragments of a job apart into rows and putting them together again
  (`fragment::laws`: the one undoes the other), selections over the rows, moving actors, counting
  what jobs read (`fragment::count_laws`: each read once, and of each job its own).
- `show`: the rows of `SHOW` and `SHOW CREATE`.
- `kafka`: the splits of a topic and their offsets.
- `file_sink`, `etcd`, `expr_context`, `migration`, `stats`: which file a sink writes, how etcd is
  started, the context of expressions, the order of migrations, the number of cursors.
- `util`: maps, sets, counts and lists keyed by identifiers, decimal text, and the calls into
  outside crates.

## Conventions

A type `T` that holds vectors or text has a model `TModel`, which is its view. Functions that change
the catalog state their outcome as one value: the next catalog with the messages, or the refusal.
Names that end in `presumes` say what a request takes for granted of the catalog. For each there is
a function whose name begins with `can_` and that tells whether it holds (`can_drop` for
`drop_presumes`); a caller asks it first. Where several entries have no order of their own, they are
listed in ascending order of their identifiers.

What is taken from outside crates without proof is small: joining, counting, grouping and sorting
from `itertools`, the list of notifiers from `smallvec`, JSON text from `serde_json`, request
identifiers from `uuid`, and lower case from the standard library. Each stands behind a function
whose comment says what is claimed of it.

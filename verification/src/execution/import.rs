use super::error::Error;
use super::store::{Store, StoreView};
use super::value::Value;
use vstd::prelude::*;

verus! {

/// A function of the host that a module can import. It gets the store, so
/// that it can read and write the memory of the module, and the arguments
/// in order; it gives a result, none, or the description of an error.
/// Nothing is assumed of what a host function does.
pub trait ImportFunc {
    fn call(&mut self, store: &mut Store, args: Vec<Value>) -> (r: Result<Option<Value>, String>);
}

/// A host function of the type `F` can answer `answer` to a call with
/// `args` in a store that looks like `store`.
pub open spec fn import_answers<F: ImportFunc>(
    store: StoreView,
    args: Seq<Value>,
    answer: Result<Option<Value>, String>,
) -> bool {
    exists|func: &mut F, target: &mut Store, given: Vec<Value>|
        target@ == store && given@ == args && #[trigger] call_ensures(
            F::call,
            (func, target, given),
            answer,
        )
}

/// A host function and the names under which it is registered.
pub struct ImportEntry<F> {
    pub module: String,
    pub field: String,
    pub func: F,
}

/// The host functions by module name and field name. No two entries are
/// registered under the same two names ([`distinct`]): a new registry has
/// none, and [`Import::insert`] puts a function in the place of the one that
/// has its names. A search finds the first entry with the names.
pub struct Import<F> {
    pub entries: Vec<ImportEntry<F>>,
}

/// The names under which the entries are registered, in order.
pub open spec fn registered<F>(entries: Seq<ImportEntry<F>>) -> Seq<(Seq<char>, Seq<char>)> {
    Seq::new(entries.len(), |i: int| (entries[i].module@, entries[i].field@))
}

/// No two entries are registered under the same two names.
pub open spec fn distinct<F>(entries: Seq<ImportEntry<F>>) -> bool {
    forall|i: int, j: int|
        0 <= i < j < entries.len() ==> !(entries[i].module@ == entries[j].module@
            && entries[i].field@ == entries[j].field@)
}

/// Where no entry from `from` on is found under the names, none has them.
pub proof fn lemma_not_found<F>(
    entries: Seq<ImportEntry<F>>,
    module: Seq<char>,
    field: Seq<char>,
    from: int,
)
    requires
        0 <= from,
        position_spec(entries, module, field, from) is None,
    ensures
        forall|i: int|
            from <= i < entries.len() ==> !(entries[i].module@ == module && entries[i].field@
                == field),
    decreases entries.len() - from,
{
    if from < entries.len() {
        lemma_not_found(entries, module, field, from + 1);
    }
}

/// The first entry from `from` on that is registered under both names.
pub open spec fn position_spec<F>(
    entries: Seq<ImportEntry<F>>,
    module: Seq<char>,
    field: Seq<char>,
    from: int,
) -> Option<int>
    decreases entries.len() - from,
{
    if from < 0 || from >= entries.len() {
        None
    } else if entries[from].module@ == module && entries[from].field@ == field {
        Some(from)
    } else {
        position_spec(entries, module, field, from + 1)
    }
}

/// Some entry from `from` on is registered under the module name.
pub open spec fn has_module<F>(entries: Seq<ImportEntry<F>>, module: Seq<char>, from: int) -> bool
    decreases entries.len() - from,
{
    if from < 0 || from >= entries.len() {
        false
    } else {
        entries[from].module@ == module || has_module(entries, module, from + 1)
    }
}

/// Where the function registered under the names is, or why none is found.
pub open spec fn find_spec<F>(entries: Seq<ImportEntry<F>>, module: Seq<char>, field: Seq<char>) -> Result<
    int,
    Error,
> {
    match position_spec(entries, module, field, 0) {
        Some(at) => Ok(at),
        None => if has_module(entries, module, 0) {
            Err(Error::ImportFunctionNotFound)
        } else {
            Err(Error::ImportModuleNotFound)
        },
    }
}

/// The first pair of names from `from` on that is the pair given.
pub open spec fn position_in(
    names: Seq<(Seq<char>, Seq<char>)>,
    module: Seq<char>,
    field: Seq<char>,
    from: int,
) -> Option<int>
    decreases names.len() - from,
{
    if from < 0 || from >= names.len() {
        None
    } else if names[from] == (module, field) {
        Some(from)
    } else {
        position_in(names, module, field, from + 1)
    }
}

/// Some pair of names from `from` on has the module name.
pub open spec fn module_in(names: Seq<(Seq<char>, Seq<char>)>, module: Seq<char>, from: int) -> bool
    decreases names.len() - from,
{
    if from < 0 || from >= names.len() {
        false
    } else {
        names[from].0 == module || module_in(names, module, from + 1)
    }
}

/// Where among the registered names the pair given is found, or why it is
/// not: [`find_spec`], told of the names alone.
pub open spec fn linked(names: Seq<(Seq<char>, Seq<char>)>, module: Seq<char>, field: Seq<char>) -> Result<
    int,
    Error,
> {
    match position_in(names, module, field, 0) {
        Some(at) => Ok(at),
        None => if module_in(names, module, 0) {
            Err(Error::ImportFunctionNotFound)
        } else {
            Err(Error::ImportModuleNotFound)
        },
    }
}

/// A search among the entries is a search among their names.
pub proof fn lemma_find_is_linked<F>(
    entries: Seq<ImportEntry<F>>,
    module: Seq<char>,
    field: Seq<char>,
    from: int,
)
    requires
        0 <= from,
    ensures
        position_spec(entries, module, field, from) == position_in(
            registered(entries),
            module,
            field,
            from,
        ),
        has_module(entries, module, from) == module_in(registered(entries), module, from),
        from == 0 ==> find_spec(entries, module, field) == linked(
            registered(entries),
            module,
            field,
        ),
    decreases entries.len() - from,
{
    if from < entries.len() {
        lemma_find_is_linked(entries, module, field, from + 1);
    }
    if from == 0 && from < entries.len() {
    }
}

/// A position that [`position_spec`] gives lies within the entries, at or
/// after the start of the search, and holds the names.
pub proof fn lemma_position<F>(
    entries: Seq<ImportEntry<F>>,
    module: Seq<char>,
    field: Seq<char>,
    from: int,
)
    ensures
        position_spec(entries, module, field, from) matches Some(at) ==> from <= at
            < entries.len() && entries[at].module@ == module && entries[at].field@ == field,
    decreases entries.len() - from,
{
    if from < 0 || from >= entries.len() {
    } else if entries[from].module@ == module && entries[from].field@ == field {
    } else {
        lemma_position(entries, module, field, from + 1);
    }
}

/// Whether two texts are the same.
pub fn same_text(a: &str, b: &str) -> (same: bool)
    ensures
        same == (a@ == b@),
{
    String::from_str(a) == String::from_str(b)
}

impl<F> Import<F> {
    /// The registry without entries.
    pub fn new() -> (import: Import<F>)
        ensures
            import.entries@.len() == 0,
            distinct(import.entries@),
    {
        Import { entries: Vec::new() }
    }

    /// Finds the function registered under the names: its place among the
    /// entries. Without an entry of the module name the module is not found;
    /// with one, but none of the field name too, the function is not found.
    pub fn find(&self, module: &str, field: &str) -> (r: Result<usize, Error>)
        ensures
            match r {
                Ok(at) => find_spec(self.entries@, module@, field@) == Ok::<int, Error>(
                    at as int,
                ) && at < self.entries@.len(),
                Err(e) => find_spec(self.entries@, module@, field@) == Err::<int, Error>(e),
            },
    {
        let mut seen = false;
        let mut i: usize = 0;
        while i < self.entries.len()
            invariant
                i <= self.entries@.len(),
                position_spec(self.entries@, module@, field@, 0) == position_spec(
                    self.entries@,
                    module@,
                    field@,
                    i as int,
                ),
                has_module(self.entries@, module@, 0) == (seen || has_module(
                    self.entries@,
                    module@,
                    i as int,
                )),
            decreases self.entries@.len() - i,
        {
            let entry = &self.entries[i];
            if same_text(entry.module.as_str(), module) {
                if same_text(entry.field.as_str(), field) {
                    return Ok(i);
                }
                seen = true;
            }
            i += 1;
        }
        if seen {
            Err(Error::ImportFunctionNotFound)
        } else {
            Err(Error::ImportModuleNotFound)
        }
    }

    /// Registers a function under the names. It takes the place of the one
    /// that is found under them, if there is one, and is added else.
    pub fn insert(&mut self, module: &str, field: &str, func: F)
        ensures
            match find_spec(old(self).entries@, module@, field@) {
                Ok(at) => final(self).entries@ == old(self).entries@.update(
                    at,
                    ImportEntry {
                        module: old(self).entries@[at].module,
                        field: old(self).entries@[at].field,
                        func,
                    },
                ),
                Err(_) => {
                    &&& final(self).entries@.len() == old(self).entries@.len() + 1
                    &&& final(self).entries@.drop_last() == old(self).entries@
                    &&& final(self).entries@.last().module@ == module@
                    &&& final(self).entries@.last().field@ == field@
                    &&& final(self).entries@.last().func == func
                },
            },
            find_spec(final(self).entries@, module@, field@) matches Ok(at)
                && final(self).entries@[at].func == func,
            distinct(old(self).entries@) ==> distinct(final(self).entries@),
    {
        proof {
            lemma_position(self.entries@, module@, field@, 0);
        }
        match self.find(module, field) {
            Ok(at) => {
                self.entries[at].func = func;
                proof {
                    lemma_update_keeps(old(self).entries@, self.entries@, module@, field@, at as int, 0);
                }
            },
            Err(_) => {
                self.entries.push(
                    ImportEntry {
                        module: String::from_str(module),
                        field: String::from_str(field),
                        func,
                    },
                );
                assert(self.entries@.drop_last() =~= old(self).entries@);
                proof {
                    lemma_not_found(old(self).entries@, module@, field@, 0);
                    assert forall|i: int| 0 <= i < old(self).entries@.len() implies self.entries@[i]
                        == old(self).entries@[i] by {
                        assert(self.entries@[i] == self.entries@.drop_last()[i]);
                    }
                    lemma_pushed_is_found(old(self).entries@, self.entries@, module@, field@, 0);
                }
            },
        }
    }
}

/// Replacing the function of an entry leaves every search as it was.
pub proof fn lemma_update_keeps<F>(
    before: Seq<ImportEntry<F>>,
    after: Seq<ImportEntry<F>>,
    module: Seq<char>,
    field: Seq<char>,
    at: int,
    from: int,
)
    requires
        0 <= at < before.len(),
        after.len() == before.len(),
        forall|i: int|
            0 <= i < before.len() ==> after[i].module == before[i].module && after[i].field
                == before[i].field,
    ensures
        position_spec(after, module, field, from) == position_spec(before, module, field, from),
    decreases before.len() - from,
{
    if from < 0 || from >= before.len() {
    } else {
        lemma_update_keeps(before, after, module, field, at, from + 1);
    }
}

/// An entry added at the end is the one found where no earlier one has its names.
pub proof fn lemma_pushed_is_found<F>(
    before: Seq<ImportEntry<F>>,
    after: Seq<ImportEntry<F>>,
    module: Seq<char>,
    field: Seq<char>,
    from: int,
)
    requires
        0 <= from <= before.len(),
        after.len() == before.len() + 1,
        after.drop_last() == before,
        after.last().module@ == module,
        after.last().field@ == field,
        position_spec(before, module, field, from) is None,
    ensures
        position_spec(after, module, field, from) == Some(before.len() as int),
    decreases before.len() - from,
{
    if from < before.len() {
        assert(after[from] == after.drop_last()[from]);
        lemma_pushed_is_found(before, after, module, field, from + 1);
    }
}

} // verus!

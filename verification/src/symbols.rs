//! The symbol table: the variables that are in effect after a pass, each
//! key once, with struct instances rendered into their variables.

use crate::rstruct::{render, Struct, StructView};
use crate::scan::has_key;
use crate::text::{chars_of, same_chars, same_text};
use crate::variable::{struct_marker, Variable, VariableView};
use vstd::prelude::*;

verus! {

/// The value of the first entry of the table with the given key.
pub open spec fn lookup(table: Seq<VariableView>, key: Seq<char>) -> Option<Seq<char>>
    decreases table.len(),
{
    if table.len() == 0 {
        None
    } else if table[0].key == key {
        Some(table[0].value)
    } else {
        lookup(table.drop_first(), key)
    }
}

/// The declarations at index `from` and after, the newest first, each key
/// once: a declaration is kept where no later one has its key.
pub open spec fn newest_first(declared: Seq<VariableView>, from: int) -> Seq<VariableView>
    decreases declared.len() - from,
{
    if from < 0 || from >= declared.len() {
        Seq::<VariableView>::empty()
    } else {
        let later = newest_first(declared, from + 1);
        if has_key(later, declared[from].key) {
            later
        } else {
            later.push(declared[from])
        }
    }
}

/// The table of the variables in effect: the declarations are taken in
/// reverse file order, and the first one met of each key is kept.
pub open spec fn effective(declared: Seq<VariableView>) -> Seq<VariableView> {
    newest_first(declared, 0)
}

/// The rendering of the struct that was bound to `key`; of the last one in
/// the list, where there are several.
pub open spec fn bound_rendering(structs: Seq<StructView>, key: Seq<char>) -> Option<Seq<char>>
    decreases structs.len(),
{
    if structs.len() == 0 {
        None
    } else if structs.last().variable == key {
        Some(render(structs.last().fields, structs.last().values))
    } else {
        bound_rendering(structs.drop_last(), key)
    }
}

/// A variable whose value is the struct marker takes the rendering of the
/// struct bound to its key; where none is bound to it, and for every other
/// variable, nothing changes.
pub open spec fn overlay(structs: Seq<StructView>, variable: VariableView) -> VariableView {
    if variable.value == struct_marker() {
        match bound_rendering(structs, variable.key) {
            Some(rendered) => VariableView { key: variable.key, value: rendered },
            None => variable,
        }
    } else {
        variable
    }
}

/// [`overlay`] on every variable of a table.
pub open spec fn overlay_all(structs: Seq<StructView>, table: Seq<VariableView>) -> Seq<
    VariableView,
> {
    Seq::new(table.len(), |i: int| overlay(structs, table[i]))
}

/// A key is in a table exactly where [`lookup`] finds a value for it.
pub proof fn lemma_lookup_finds(table: Seq<VariableView>, key: Seq<char>)
    ensures
        lookup(table, key) is Some <==> has_key(table, key),
    decreases table.len(),
{
    if table.len() == 0 {
    } else if table[0].key == key {
    } else {
        lemma_lookup_finds(table.drop_first(), key);
        if has_key(table, key) {
            let i = choose|i: int| 0 <= i < table.len() && (#[trigger] table[i]).key == key;
            assert(table.drop_first()[i - 1] == table[i]);
        }
        if has_key(table.drop_first(), key) {
            let i = choose|i: int|
                0 <= i < table.drop_first().len() && (#[trigger] table.drop_first()[i]).key == key;
            assert(table[i + 1] == table.drop_first()[i]);
        }
    }
}

/// What [`lookup`] finds after one more entry was added at the end: what
/// it found before, else the value of the new entry where the key is its
/// own.
pub proof fn lemma_lookup_push(table: Seq<VariableView>, entry: VariableView, key: Seq<char>)
    ensures
        lookup(table.push(entry), key) == match lookup(table, key) {
            Some(value) => Some(value),
            None => if entry.key == key {
                Some(entry.value)
            } else {
                None
            },
        },
    decreases table.len(),
{
    let longer = table.push(entry);
    assert(longer.len() > 0);
    if table.len() == 0 {
        assert(longer[0] == entry);
        assert(longer.drop_first() =~= Seq::<VariableView>::empty());
        assert(lookup(longer.drop_first(), key) is None);
        assert(lookup(table, key) is None);
    } else if table[0].key == key {
        assert(longer[0] == table[0]);
        assert(lookup(table, key) == Some(table[0].value));
        assert(lookup(longer, key) == Some(table[0].value));
    } else {
        assert(longer[0] == table[0]);
        assert(longer.drop_first() =~= table.drop_first().push(entry));
        lemma_lookup_push(table.drop_first(), entry, key);
        assert(lookup(longer, key) == lookup(longer.drop_first(), key));
        assert(lookup(table, key) == lookup(table.drop_first(), key));
    }
}

/// Every key of [`newest_first`] is the key of a declaration at `from` or
/// after.
pub proof fn lemma_newest_first_keys(declared: Seq<VariableView>, from: int, key: Seq<char>)
    requires
        0 <= from,
        has_key(newest_first(declared, from), key),
    ensures
        exists|j: int| from <= j < declared.len() && (#[trigger] declared[j]).key == key,
    decreases declared.len() - from,
{
    if from < declared.len() {
        let later = newest_first(declared, from + 1);
        let all = newest_first(declared, from);
        let i = choose|i: int| 0 <= i < all.len() && (#[trigger] all[i]).key == key;
        if has_key(later, declared[from].key) || i < later.len() {
            assert(later[i].key == key);
            lemma_newest_first_keys(declared, from + 1, key);
        } else {
            assert(declared[from].key == key);
        }
    }
}

/// The last declaration wins: where no later declaration has the key of
/// the declaration at index `i`, the table of the variables in effect gives
/// that key the value declared there.
pub proof fn lemma_last_declaration_wins(declared: Seq<VariableView>, i: int)
    requires
        0 <= i < declared.len(),
        forall|j: int| i < j < declared.len() ==> (#[trigger] declared[j]).key != declared[i].key,
    ensures
        lookup(effective(declared), declared[i].key) == Some(declared[i].value),
{
    lemma_kept_from(declared, i, 0);
}

/// The step of [`lemma_last_declaration_wins`]: the same for the
/// declarations at `from` and after, for every `from` up to `i`.
proof fn lemma_kept_from(declared: Seq<VariableView>, i: int, from: int)
    requires
        0 <= from <= i < declared.len(),
        forall|j: int| i < j < declared.len() ==> (#[trigger] declared[j]).key != declared[i].key,
    ensures
        lookup(newest_first(declared, from), declared[i].key) == Some(declared[i].value),
    decreases i - from,
{
    let key = declared[i].key;
    let later = newest_first(declared, from + 1);
    if from == i {
        if has_key(later, key) {
            lemma_newest_first_keys(declared, from + 1, key);
        }
        lemma_lookup_finds(later, key);
        lemma_lookup_push(later, declared[i], key);
    } else {
        lemma_kept_from(declared, i, from + 1);
        lemma_lookup_push(later, declared[from], key);
    }
}

/// No key stands twice in the table of the variables in effect.
pub proof fn lemma_effective_keys_differ(declared: Seq<VariableView>, from: int)
    requires
        0 <= from,
    ensures
        forall|a: int, b: int|
            0 <= a < b < newest_first(declared, from).len() ==> (#[trigger] newest_first(
                declared,
                from,
            )[a]).key != (#[trigger] newest_first(declared, from)[b]).key,
    decreases declared.len() - from,
{
    if from < declared.len() {
        lemma_effective_keys_differ(declared, from + 1);
        let later = newest_first(declared, from + 1);
        let all = newest_first(declared, from);
        assert forall|a: int, b: int| 0 <= a < b < all.len() implies (#[trigger] all[a]).key != (
        #[trigger] all[b]).key by {
            if b < later.len() {
                assert(all[a] == later[a] && all[b] == later[b]);
            } else {
                assert(!has_key(later, declared[from].key));
                assert(all[a] == later[a]);
            }
        }
    }
}

/// Executable form of [`lookup`].
pub fn find_value(table: &Vec<Variable>, key: &Vec<char>) -> (r: Option<String>)
    ensures
        match r {
            Some(value) => lookup(table.deep_view(), key@) == Some(value@),
            None => lookup(table.deep_view(), key@) is None,
        },
{
    let mut i: usize = 0;
    assert(table.deep_view().subrange(0, table.len() as int) == table.deep_view());
    while i < table.len()
        invariant
            i <= table.len(),
            lookup(table.deep_view(), key@) == lookup(
                table.deep_view().subrange(i as int, table.len() as int),
                key@,
            ),
        decreases table.len() - i,
    {
        let ghost rest = table.deep_view().subrange(i as int, table.len() as int);
        assert(rest[0] == table.deep_view()[i as int]);
        assert(rest.drop_first() == table.deep_view().subrange(i + 1, table.len() as int));
        let found = chars_of(table[i].get_key().as_str());
        if same_chars(&found, key) {
            return Some(table[i].get_value());
        }
        i += 1;
    }
    None
}

/// The variables in effect, from the declarations in file order: the
/// declarations are taken in reverse order, and of each key the first one
/// met, which is the last one declared, is kept.
pub fn process_vars(vars: Vec<Variable>) -> (r: Vec<Variable>)
    ensures
        r.deep_view() == effective(vars.deep_view()),
{
    let ghost declared = vars.deep_view();
    let mut kept: Vec<Variable> = Vec::new();
    let mut i: usize = vars.len();
    assert(kept.deep_view() =~= newest_first(declared, i as int));
    while i > 0
        invariant
            i <= vars.len(),
            declared == vars.deep_view(),
            kept.deep_view() == newest_first(declared, i as int),
        decreases i,
    {
        i -= 1;
        let key = chars_of(vars[i].get_key().as_str());
        if !crate::scan::key_known(&kept, &key) {
            let ghost before = kept.deep_view();
            kept.push(vars[i].clone());
            assert(kept.deep_view() =~= before.push(declared[i as int]));
        }
    }
    kept
}

/// Executable form of [`bound_rendering`].
pub fn find_rendering(structs: &Vec<Struct>, key: &str) -> (r: Option<String>)
    ensures
        match r {
            Some(rendered) => bound_rendering(structs.deep_view(), key@) == Some(rendered@),
            None => bound_rendering(structs.deep_view(), key@) is None,
        },
{
    let mut i: usize = structs.len();
    assert(structs.deep_view().take(i as int) == structs.deep_view());
    while i > 0
        invariant
            i <= structs.len(),
            bound_rendering(structs.deep_view(), key@) == bound_rendering(
                structs.deep_view().take(i as int),
                key@,
            ),
        decreases i,
    {
        let ghost head = structs.deep_view().take(i as int);
        assert(head.last() == structs.deep_view()[i - 1]);
        assert(head.drop_last() == structs.deep_view().take(i - 1));
        i -= 1;
        if same_text(structs[i].get_variable(), key) {
            return Some(structs[i].to_json());
        }
    }
    None
}

/// The table with the struct instances rendered: every variable whose
/// value is the struct marker takes the rendering of the struct bound to its
/// key.
pub fn process_struct_vars(structs: &Vec<Struct>, pvars: Vec<Variable>) -> (r: Vec<Variable>)
    ensures
        r.deep_view() == overlay_all(structs.deep_view(), pvars.deep_view()),
{
    let ghost model = overlay_all(structs.deep_view(), pvars.deep_view());
    let mut r: Vec<Variable> = Vec::new();
    let mut i: usize = 0;
    while i < pvars.len()
        invariant
            i <= pvars.len(),
            model == overlay_all(structs.deep_view(), pvars.deep_view()),
            r.deep_view() == model.take(i as int),
        decreases pvars.len() - i,
    {
        let mut next = pvars[i].clone();
        assert(next@ == pvars.deep_view()[i as int]);
        if same_text(next.get_value().as_str(), "[Struct]") {
            match find_rendering(structs, next.get_key().as_str()) {
                Some(rendered) => next.set_value(rendered.as_str()),
                None => {},
            }
        }
        assert(next@ == model[i as int]);
        let ghost before = r.deep_view();
        r.push(next);
        assert(r.deep_view() =~= before.push(model[i as int]));
        i += 1;
    }
    assert(model.take(pvars.len() as int) == model);
    r
}

} // verus!

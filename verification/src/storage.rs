//! The storage table: which location currently holds each variable and each
//! cached constant, most recent binding first.
use vstd::prelude::*;
use crate::machine::Location;

verus! {

/// Stands in the `value` field of a binding that is no constant, and in a
/// lookup that is after a name only.
pub const INVAL: i64 = -999;

/// One binding of the storage table.
#[derive(Debug)]
pub struct varStoreInfo {
    /// The variable's name; empty for a constant.
    pub name: String,
    /// Whether the binding caches a constant rather than names a variable.
    pub is_const: bool,
    /// The constant's value, [`INVAL`] for a variable.
    pub value: i64,
    /// Where the value lives.
    pub location: Location,
}

/// Mathematical value of a [`varStoreInfo`].
pub struct Binding {
    pub name: Seq<char>,
    pub is_const: bool,
    pub value: i64,
    pub location: Location,
}

impl View for varStoreInfo {
    type V = Binding;

    open spec fn view(&self) -> Binding {
        Binding {
            name: self.name@,
            is_const: self.is_const,
            value: self.value,
            location: self.location,
        }
    }
}

impl Binding {
    /// A constant answers to its value, a variable to its name.
    pub open spec fn answers(self, name: Seq<char>, value: i64) -> bool {
        if self.is_const {
            self.value == value
        } else {
            self.name == name
        }
    }
}

/// The location of the first binding of `table` that answers to `name` or
/// `value`, if there is one.
pub open spec fn lookup(table: Seq<Binding>, name: Seq<char>, value: i64) -> Option<Location>
    decreases table.len(),
{
    if table.len() == 0 {
        None
    } else if table[0].answers(name, value) {
        Some(table[0].location)
    } else {
        lookup(table.drop_first(), name, value)
    }
}

/// Index of the first binding of `table` that carries `name`, or the length
/// of `table` if none does.
pub open spec fn position_of_name(table: Seq<Binding>, name: Seq<char>) -> int
    decreases table.len(),
{
    if table.len() == 0 {
        0
    } else if table[0].name == name {
        0
    } else {
        1 + position_of_name(table.drop_first(), name)
    }
}

/// The table after an update: a new binding in front if the lookup finds
/// nothing; otherwise the first binding that carries `name` is rewritten in
/// place, and if none carries it the table stays as it is.
pub open spec fn updated(
    table: Seq<Binding>,
    name: Seq<char>,
    location: Location,
    value: i64,
    is_const: bool,
) -> Seq<Binding> {
    let binding = Binding { name, is_const, value, location };
    if lookup(table, name, value) is None {
        table.insert(0, binding)
    } else if position_of_name(table, name) < table.len() {
        table.update(position_of_name(table, name), binding)
    } else {
        table
    }
}

/// The storage table.
#[derive(Debug)]
pub struct varStList {
    /// Bindings, most recent first.
    pub entries: Vec<varStoreInfo>,
}

impl View for varStList {
    type V = Seq<Binding>;

    open spec fn view(&self) -> Seq<Binding> {
        self.entries@.map_values(|entry: varStoreInfo| entry@)
    }
}

impl varStList {
    /// An empty table.
    pub fn new() -> (list: varStList)
        ensures
            list@ == Seq::<Binding>::empty(),
    {
        let list = varStList { entries: Vec::new() };
        assert(list@ =~= Seq::<Binding>::empty());
        list
    }

    /// Puts a new binding in front of all others; a binding that answers to
    /// the same name or value is shadowed, not replaced.
    pub fn add_var_info(&mut self, varname: String, location: Location, val: i64, is_const: bool)
        ensures
            final(self)@ == old(self)@.insert(
                0,
                Binding { name: varname@, is_const, value: val, location },
            ),
    {
        let entry = varStoreInfo { name: varname, is_const, value: val, location };
        self.entries.insert(0, entry);
        assert(self@ =~= old(self)@.insert(0, entry@));
    }

    /// Finds where a value lives: constants are matched by `val`, variables by
    /// `name`, and the most recent binding wins.
    pub fn lookup_var_info(&self, name: String, val: i64) -> (found: Option<Location>)
        ensures
            found == lookup(self@, name@, val),
    {
        let mut i: usize = 0;
        assert(self@.skip(0) =~= self@);
        while i < self.entries.len()
            invariant
                0 <= i <= self.entries.len(),
                lookup(self@, name@, val) == lookup(self@.skip(i as int), name@, val),
            decreases self.entries.len() - i,
        {
            let entry = &self.entries[i];
            let rest = Ghost(self@.skip(i as int));
            assert(rest@[0] == entry@);
            assert(rest@.drop_first() =~= self@.skip(i + 1));
            if entry.is_const {
                if entry.value == val {
                    return Some(entry.location);
                }
            } else {
                if entry.name == name {
                    return Some(entry.location);
                }
            }
            i += 1;
        }
        assert(self@.skip(i as int).len() == 0);
        None
    }

    /// Binds `varName` if the lookup finds nothing; otherwise rewrites, in
    /// place, the first binding that carries the name.
    pub fn update_var_info(&mut self, varName: String, location: Location, val: i64, is_const: bool)
        ensures
            final(self)@ == updated(old(self)@, varName@, location, val, is_const),
    {
        let found = self.lookup_var_info(varName.clone(), val);
        if found.is_none() {
            self.add_var_info(varName, location, val, is_const);
        } else {
            let mut i: usize = 0;
            assert(self@.skip(0) =~= self@);
            while i < self.entries.len()
                invariant
                    0 <= i <= self.entries.len(),
                    self@ == old(self)@,
                    found == lookup(old(self)@, varName@, val),
                    found is Some,
                    position_of_name(self@, varName@) == i + position_of_name(
                        self@.skip(i as int),
                        varName@,
                    ),
                decreases self.entries.len() - i,
            {
                let rest = Ghost(self@.skip(i as int));
                assert(rest@[0] == self.entries[i as int]@);
                assert(rest@.drop_first() =~= self@.skip(i + 1));
                if self.entries[i].name == varName {
                    let entry = varStoreInfo { name: varName, is_const, value: val, location };
                    self.entries.set(i, entry);
                    assert(self@ =~= old(self)@.update(i as int, entry@));
                    return ;
                }
                i += 1;
            }
            assert(self@.skip(i as int).len() == 0);
        }
    }

    /// Drops every binding.
    pub fn free_list(&mut self)
        ensures
            final(self)@ == Seq::<Binding>::empty(),
    {
        self.entries.clear();
        assert(self@ =~= Seq::<Binding>::empty());
    }
}

/// A binding put in front is the one a lookup for it finds.
pub proof fn lemma_lookup_finds_front(
    table: Seq<Binding>,
    binding: Binding,
    name: Seq<char>,
    value: i64,
)
    ensures
        binding.answers(name, value) ==> lookup(table.insert(0, binding), name, value) == Some(
            binding.location,
        ),
        !binding.answers(name, value) ==> lookup(table.insert(0, binding), name, value)
            == lookup(table, name, value),
{
    assert(table.insert(0, binding).drop_first() =~= table);
}

} // verus!

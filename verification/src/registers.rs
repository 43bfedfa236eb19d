//! The register table: which of a fixed set of registers may be claimed.
use vstd::prelude::*;
use crate::machine::Register;

verus! {

/// One entry of the register table.
#[derive(Clone, Copy, Debug, PartialEq, Eq, Structural)]
pub struct regInfo {
    pub name: Register,
    /// Whether the register may be claimed.
    pub avail: bool,
}

/// Whether `reg` is a member of `table`.
pub open spec fn listed(table: Seq<regInfo>, reg: Register) -> bool {
    exists|i: int| 0 <= i < table.len() && (#[trigger] table[i]).name == reg
}

/// Whether `reg` is a member of `table` that may be claimed.
pub open spec fn available(table: Seq<regInfo>, reg: Register) -> bool {
    exists|i: int| 0 <= i < table.len() && (#[trigger] table[i]).name == reg && table[i].avail
}

/// Whether `reg` is a member of `table` that is in use.
pub open spec fn claimed(table: Seq<regInfo>, reg: Register) -> bool {
    exists|i: int| 0 <= i < table.len() && (#[trigger] table[i]).name == reg && !table[i].avail
}

/// The fixed universe of a table: the registers listed in it.
pub open spec fn universe(table: Seq<regInfo>) -> Set<Register> {
    Set::new(|reg: Register| listed(table, reg))
}

/// The registers of a table that may be claimed.
pub open spec fn available_set(table: Seq<regInfo>) -> Set<Register> {
    Set::new(|reg: Register| available(table, reg))
}

/// The registers of a table that are in use.
pub open spec fn claimed_set(table: Seq<regInfo>) -> Set<Register> {
    Set::new(|reg: Register| claimed(table, reg))
}

/// No register is listed twice, and the stack pointer and the frame base are
/// never available.
pub open spec fn well_formed(table: Seq<regInfo>) -> bool {
    &&& forall|i: int, j: int|
        0 <= i < j < table.len() ==> (#[trigger] table[i]).name != (#[trigger] table[j]).name
    &&& forall|i: int|
        0 <= i < table.len() && (#[trigger] table[i]).name.is_pointer() ==> !table[i].avail
}

/// The first available register in table order, passing over the accumulator
/// when `no_acc` is set.
pub open spec fn next_available(table: Seq<regInfo>, no_acc: bool) -> Option<Register>
    decreases table.len(),
{
    if table.len() == 0 {
        None
    } else if table[0].avail && !(no_acc && table[0].name == Register::Rax) {
        Some(table[0].name)
    } else {
        next_available(table.drop_first(), no_acc)
    }
}

/// What availability `reg` ends up with when `avail` is asked for: a pointer
/// register stays unavailable.
pub open spec fn granted(reg: Register, avail: bool) -> bool {
    avail && !reg.is_pointer()
}

/// The table with `reg` appended, unless it is listed already.
pub open spec fn with_register(table: Seq<regInfo>, reg: Register, avail: bool) -> Seq<regInfo> {
    if listed(table, reg) {
        table
    } else {
        table.push(regInfo { name: reg, avail: granted(reg, avail) })
    }
}

/// The table with the availability of `reg` set; membership and order stay.
pub open spec fn with_availability(table: Seq<regInfo>, reg: Register, avail: bool) -> Seq<
    regInfo,
> {
    Seq::new(
        table.len(),
        |i: int|
            if table[i].name == reg {
                regInfo { name: reg, avail: granted(reg, avail) }
            } else {
                table[i]
            },
    )
}

/// The registers every run starts with, in table order: the four
/// general-purpose registers, the two pointer registers, and the argument
/// registers not yet among them.
pub open spec fn machine_registers() -> Seq<regInfo> {
    seq![
        regInfo { name: Register::Rax, avail: true },
        regInfo { name: Register::Rbx, avail: true },
        regInfo { name: Register::Rcx, avail: true },
        regInfo { name: Register::Rdx, avail: true },
        regInfo { name: Register::Rsp, avail: false },
        regInfo { name: Register::Rbp, avail: false },
        regInfo { name: Register::Rsi, avail: true },
        regInfo { name: Register::Rdi, avail: true },
        regInfo { name: Register::R8, avail: true },
        regInfo { name: Register::R9, avail: true },
    ]
}

/// The register table.
#[derive(Debug)]
pub struct regList {
    /// Entries in the order in which they were added.
    pub regs: Vec<regInfo>,
}

impl View for regList {
    type V = Seq<regInfo>;

    open spec fn view(&self) -> Seq<regInfo> {
        self.regs@
    }
}

impl regList {
    /// A table without registers.
    pub fn new() -> (list: regList)
        ensures
            list@ == Seq::<regInfo>::empty(),
            well_formed(list@),
    {
        regList { regs: Vec::new() }
    }

    fn position(&self, name: Register) -> (at: usize)
        ensures
            at <= self@.len(),
            at < self@.len() ==> self@[at as int].name == name,
            at == self@.len() ==> !listed(self@, name),
    {
        let mut i: usize = 0;
        while i < self.regs.len()
            invariant
                0 <= i <= self.regs.len(),
                forall|k: int| 0 <= k < i ==> (#[trigger] self@[k]).name != name,
            decreases self.regs.len() - i,
        {
            if self.regs[i].name == name {
                return i;
            }
            i += 1;
        }
        i
    }

    /// Adds a register at the end of the table. A register that is listed
    /// already stays as it is, and a pointer register is added unavailable.
    pub fn add_reg(&mut self, name: Register, avail: bool)
        ensures
            final(self)@ == with_register(old(self)@, name, avail),
            well_formed(old(self)@) ==> well_formed(final(self)@),
    {
        let at = self.position(name);
        if at == self.regs.len() {
            self.regs.push(regInfo { name, avail: avail && !name.pointer() });
        }
    }

    /// Releases (`avail` set) or reserves a register. Membership and order
    /// stay; a pointer register stays unavailable whatever is asked.
    pub fn update_reg_info(&mut self, name: Register, avail: bool)
        ensures
            final(self)@ == with_availability(old(self)@, name, avail),
            well_formed(old(self)@) ==> well_formed(final(self)@),
            universe(final(self)@) == universe(old(self)@),
    {
        let flag = avail && !name.pointer();
        let mut i: usize = 0;
        while i < self.regs.len()
            invariant
                0 <= i <= self.regs.len(),
                flag == granted(name, avail),
                self@.len() == old(self)@.len(),
                forall|k: int|
                    0 <= k < i ==> (#[trigger] self@[k]) == with_availability(
                        old(self)@,
                        name,
                        avail,
                    )[k],
                forall|k: int| i <= k < self@.len() ==> (#[trigger] self@[k]) == old(self)@[k],
            decreases self.regs.len() - i,
        {
            if self.regs[i].name == name {
                self.regs.set(i, regInfo { name, avail: flag });
            }
            i += 1;
        }
        assert(self@ =~= with_availability(old(self)@, name, avail));
        proof {
            lemma_universe_is_fixed(old(self)@, name, avail);
        }
    }

    /// The register a claim would take: the first available one, passing over
    /// the accumulator when `noAcc` is set. `None` is the ordinary answer when
    /// everything is in use.
    pub fn get_next_avail_reg(&self, noAcc: bool) -> (reg: Option<Register>)
        ensures
            reg == next_available(self@, noAcc),
    {
        let mut i: usize = 0;
        assert(self@.skip(0) =~= self@);
        while i < self.regs.len()
            invariant
                0 <= i <= self.regs.len(),
                next_available(self@, noAcc) == next_available(self@.skip(i as int), noAcc),
            decreases self.regs.len() - i,
        {
            let entry = self.regs[i];
            assert(self@.skip(i as int)[0] == entry);
            assert(self@.skip(i as int).drop_first() =~= self@.skip(i + 1));
            if entry.avail {
                if !noAcc {
                    return Some(entry.name);
                }
                if entry.name != Register::Rax {
                    return Some(entry.name);
                }
            }
            i += 1;
        }
        assert(self@.skip(i as int).len() == 0);
        None
    }

    /// Whether a claim would succeed.
    pub fn if_avail_reg(&self, noAcc: bool) -> (any: bool)
        ensures
            any == next_available(self@, noAcc).is_some(),
    {
        self.get_next_avail_reg(noAcc).is_some()
    }

    /// Whether `name` is listed and available.
    pub fn is_avail_reg(&self, name: Register) -> (avail: bool)
        ensures
            avail == available(self@, name),
    {
        let mut i: usize = 0;
        while i < self.regs.len()
            invariant
                0 <= i <= self.regs.len(),
                forall|k: int|
                    0 <= k < i ==> !((#[trigger] self@[k]).name == name && self@[k].avail),
            decreases self.regs.len() - i,
        {
            if self.regs[i].name == name {
                if self.regs[i].avail {
                    return true;
                }
            }
            i += 1;
        }
        false
    }

    /// Drops every entry.
    pub fn free_list(&mut self)
        ensures
            final(self)@ == Seq::<regInfo>::empty(),
    {
        self.regs.clear();
    }
}

/// The table after [`create_reg_list`]: the machine's registers added one by
/// one, in table order.
pub open spec fn with_machine_registers(table: Seq<regInfo>) -> Seq<regInfo> {
    let t1 = with_register(table, Register::Rax, true);
    let t2 = with_register(t1, Register::Rbx, true);
    let t3 = with_register(t2, Register::Rcx, true);
    let t4 = with_register(t3, Register::Rdx, true);
    let t5 = with_register(t4, Register::Rsp, false);
    let t6 = with_register(t5, Register::Rbp, false);
    let t7 = with_register(t6, Register::Rsi, true);
    let t8 = with_register(t7, Register::Rdi, true);
    let t9 = with_register(t8, Register::R8, true);
    with_register(t9, Register::R9, true)
}

/// Establishes the membership of the table for a run: adds the machine's
/// registers, the two pointer registers unavailable and the rest available.
/// On an empty table the result is exactly [`machine_registers`].
pub fn create_reg_list(reg_list: &mut regList)
    ensures
        final(reg_list)@ == with_machine_registers(old(reg_list)@),
        well_formed(old(reg_list)@) ==> well_formed(final(reg_list)@),
        old(reg_list)@.len() == 0 ==> final(reg_list)@ == machine_registers(),
{
    reg_list.add_reg(Register::Rax, true);
    reg_list.add_reg(Register::Rbx, true);
    reg_list.add_reg(Register::Rcx, true);
    reg_list.add_reg(Register::Rdx, true);
    reg_list.add_reg(Register::Rsp, false);
    reg_list.add_reg(Register::Rbp, false);
    reg_list.add_reg(Register::Rsi, true);
    reg_list.add_reg(Register::Rdi, true);
    reg_list.add_reg(Register::R8, true);
    reg_list.add_reg(Register::R9, true);
    proof {
        if old(reg_list)@.len() == 0 {
            lemma_machine_registers();
        }
    }
}

/// Added to an empty table, the machine's registers give [`machine_registers`],
/// which is well formed.
pub proof fn lemma_machine_registers()
    ensures
        with_machine_registers(Seq::<regInfo>::empty()) == machine_registers(),
        well_formed(machine_registers()),
{
    let t0 = Seq::<regInfo>::empty();
    let t1 = with_register(t0, Register::Rax, true);
    let t2 = with_register(t1, Register::Rbx, true);
    let t3 = with_register(t2, Register::Rcx, true);
    let t4 = with_register(t3, Register::Rdx, true);
    let t5 = with_register(t4, Register::Rsp, false);
    let t6 = with_register(t5, Register::Rbp, false);
    let t7 = with_register(t6, Register::Rsi, true);
    let t8 = with_register(t7, Register::Rdi, true);
    let t9 = with_register(t8, Register::R8, true);
    let t10 = with_register(t9, Register::R9, true);
    assert(t1.len() == 1);
    assert(t2.len() == 2);
    assert(t3.len() == 3);
    assert(t4.len() == 4);
    assert(t5.len() == 5);
    assert(t6.len() == 6);
    assert(t7.len() == 7);
    assert(t8.len() == 8);
    assert(t9.len() == 9);
    assert(t10.len() == 10);
    assert(t10 =~= machine_registers());
}

/// Register conservation: the available registers and the claimed registers
/// of a well-formed table together are its universe, and no register is in
/// both sets.
pub proof fn lemma_register_conservation(table: Seq<regInfo>)
    requires
        well_formed(table),
    ensures
        available_set(table).union(claimed_set(table)) == universe(table),
        available_set(table).disjoint(claimed_set(table)),
{
    assert(available_set(table).union(claimed_set(table)) =~= universe(table));
}

/// Releasing or reserving a register leaves the universe of the table as it
/// was.
pub proof fn lemma_universe_is_fixed(table: Seq<regInfo>, reg: Register, avail: bool)
    ensures
        universe(with_availability(table, reg, avail)) == universe(table),
{
    assert forall|other: Register|
        listed(with_availability(table, reg, avail), other) <==> listed(table, other) by {
        lemma_availability_keeps_membership(table, reg, avail, other);
    }
    assert(universe(with_availability(table, reg, avail)) =~= universe(table));
}

/// Releasing or reserving changes neither the membership of the table nor its
/// order, and changes the availability of no other register.
pub proof fn lemma_availability_keeps_membership(
    table: Seq<regInfo>,
    reg: Register,
    avail: bool,
    other: Register,
)
    ensures
        with_availability(table, reg, avail).len() == table.len(),
        forall|i: int|
            0 <= i < table.len() ==> (#[trigger] with_availability(table, reg, avail)[i]).name
                == table[i].name,
        listed(with_availability(table, reg, avail), other) <==> listed(table, other),
        other != reg ==> (available(with_availability(table, reg, avail), other) <==> available(
            table,
            other,
        )),
        well_formed(table) ==> well_formed(with_availability(table, reg, avail)),
        listed(table, reg) ==> (available(with_availability(table, reg, avail), reg) <==> granted(
            reg,
            avail,
        )),
{
    let after = with_availability(table, reg, avail);
    if listed(table, other) {
        let i = choose|i: int| 0 <= i < table.len() && (#[trigger] table[i]).name == other;
        assert(after[i].name == other);
    }
    if listed(after, other) {
        let i = choose|i: int| 0 <= i < after.len() && (#[trigger] after[i]).name == other;
        assert(table[i].name == other);
    }
    if other != reg {
        if available(table, other) {
            let i = choose|i: int|
                0 <= i < table.len() && (#[trigger] table[i]).name == other && table[i].avail;
            assert(after[i].name == other && after[i].avail);
        }
        if available(after, other) {
            let i = choose|i: int|
                0 <= i < after.len() && (#[trigger] after[i]).name == other && after[i].avail;
            assert(table[i].name == other && table[i].avail);
        }
    }
    if listed(table, reg) {
        let i = choose|i: int| 0 <= i < table.len() && (#[trigger] table[i]).name == reg;
        assert(after[i].name == reg && after[i].avail == granted(reg, avail));
    }
}

/// A claim only ever yields a listed register that is available, and never
/// the accumulator when that was excluded; it yields nothing exactly when no
/// such register is listed.
pub proof fn lemma_claim_is_available(table: Seq<regInfo>, no_acc: bool)
    ensures
        match next_available(table, no_acc) {
            Some(reg) => available(table, reg) && !(no_acc && reg == Register::Rax),
            None => forall|reg: Register|
                available(table, reg) ==> no_acc && reg == Register::Rax,
        },
    decreases table.len(),
{
    if table.len() > 0 {
        let rest = table.drop_first();
        lemma_claim_is_available(rest, no_acc);
        if table[0].avail && !(no_acc && table[0].name == Register::Rax) {
        } else {
            match next_available(rest, no_acc) {
                Some(reg) => {
                    let i = choose|i: int|
                        0 <= i < rest.len() && (#[trigger] rest[i]).name == reg && rest[i].avail;
                    assert(table[i + 1].name == reg && table[i + 1].avail);
                },
                None => {
                    assert forall|reg: Register| available(table, reg) implies no_acc && reg
                        == Register::Rax by {
                        let i = choose|i: int|
                            0 <= i < table.len() && (#[trigger] table[i]).name == reg
                                && table[i].avail;
                        if i > 0 {
                            assert(rest[i - 1].name == reg && rest[i - 1].avail);
                            assert(available(rest, reg));
                        }
                    }
                },
            }
        }
    }
}

} // verus!

//! The control-flow body a front end hands over: storage slots,
//! projected places, assignment statements and call terminators, with
//! basic blocks already linearized in reverse postorder.

use vstd::prelude::*;

verus! {

/// One projection step applied to a storage slot.
#[derive(Clone, Copy, Debug, PartialEq, Eq, Structural)]
pub enum PlaceElem {
    Deref,
    Field(usize),
    Other,
}

/// A dataflow location: a storage slot plus the projection steps that
/// reach the value inside it. Slot 0 is the return place.
#[derive(Clone, Debug)]
pub struct Place {
    pub local: u64,
    pub projection: Vec<PlaceElem>,
}

/// Mathematical image of a [`Place`].
pub ghost struct PlaceV {
    pub local: u64,
    pub proj: Seq<PlaceElem>,
}

impl View for Place {
    type V = PlaceV;

    open spec fn view(&self) -> PlaceV {
        PlaceV { local: self.local, proj: self.projection@ }
    }
}

impl Place {
    /// A place that names a storage slot with no projection.
    pub fn from_local(local: u64) -> (r: Place)
        ensures
            r@.local == local,
            r@.proj == Seq::<PlaceElem>::empty(),
    {
        Place { local, projection: Vec::new() }
    }

    /// Clones the place.
    pub fn clone_place(&self) -> (r: Place)
        ensures
            r@ == self@,
    {
        let mut proj: Vec<PlaceElem> = Vec::new();
        let n = self.projection.len();
        for i in 0..n
            invariant
                n == self.projection@.len(),
                proj@ == self.projection@.subrange(0, i as int),
        {
            proj.push(self.projection[i]);
            assert(proj@ =~= self.projection@.subrange(0, i + 1 as int));
        }
        assert(proj@ =~= self.projection@);
        Place { local: self.local, projection: proj }
    }

    /// Whether two places denote the same slot and projection.
    pub fn eq_place(&self, other: &Place) -> (r: bool)
        ensures
            r == (self@ == other@),
    {
        if self.local != other.local || self.projection.len() != other.projection.len() {
            proof {
                if self.projection@.len() != other.projection@.len() {
                    assert(self@.proj != other@.proj);
                }
            }
            return false;
        }
        let n = self.projection.len();
        for i in 0..n
            invariant
                n == self.projection@.len() == other.projection@.len(),
            forall|j: int| 0 <= j < i ==> self.projection@[j] == other.projection@[j],
        {
            if self.projection[i] != other.projection[i] {
                return false;
            }
        }
        assert(self.projection@ =~= other.projection@);
        true
    }
}

/// The operand of a use, cast, or call argument. Constant operands
/// carry no dataflow and are collapsed.
#[derive(Clone, Debug)]
pub enum Operand {
    Copy(Place),
    Move(Place),
    Constant,
}

/// Mathematical image of an [`Operand`].
pub ghost enum OperandV {
    Copy(PlaceV),
    Move(PlaceV),
    Constant,
}

impl View for Operand {
    type V = OperandV;

    open spec fn view(&self) -> OperandV {
        match self {
            Operand::Copy(p) => OperandV::Copy(p@),
            Operand::Move(p) => OperandV::Move(p@),
            Operand::Constant => OperandV::Constant,
        }
    }
}

/// The place an operand reads, if it reads one.
pub open spec fn operand_place(o: OperandV) -> Option<PlaceV> {
    match o {
        OperandV::Copy(p) => Some(p),
        OperandV::Move(p) => Some(p),
        OperandV::Constant => None,
    }
}

/// The right-hand side of an assignment, classified by how data flows
/// out of it.
#[derive(Clone, Debug)]
pub enum Rvalue {
    Use(Operand),
    Repeat(Operand),
    Cast(Operand),
    Ref(Place),
    AddressOf(Place),
    Discriminant(Place),
    CopyForDeref(Place),
    BinaryOp(Operand, Operand),
    Other,
}

/// Mathematical image of an [`Rvalue`].
pub ghost enum RvalueV {
    Use(OperandV),
    Repeat(OperandV),
    Cast(OperandV),
    Ref(PlaceV),
    AddressOf(PlaceV),
    Discriminant(PlaceV),
    CopyForDeref(PlaceV),
    BinaryOp(OperandV, OperandV),
    Other,
}

impl View for Rvalue {
    type V = RvalueV;

    open spec fn view(&self) -> RvalueV {
        match self {
            Rvalue::Use(o) => RvalueV::Use(o@),
            Rvalue::Repeat(o) => RvalueV::Repeat(o@),
            Rvalue::Cast(o) => RvalueV::Cast(o@),
            Rvalue::Ref(p) => RvalueV::Ref(p@),
            Rvalue::AddressOf(p) => RvalueV::AddressOf(p@),
            Rvalue::Discriminant(p) => RvalueV::Discriminant(p@),
            Rvalue::CopyForDeref(p) => RvalueV::CopyForDeref(p@),
            Rvalue::BinaryOp(a, b) => RvalueV::BinaryOp(a@, b@),
            Rvalue::Other => RvalueV::Other,
        }
    }
}

/// One statement of a basic block.
#[derive(Clone, Debug)]
pub enum Statement {
    Assign(Place, Rvalue),
    Nop,
}

/// Mathematical image of a [`Statement`].
pub ghost enum StatementV {
    Assign(PlaceV, RvalueV),
    Nop,
}

impl View for Statement {
    type V = StatementV;

    open spec fn view(&self) -> StatementV {
        match self {
            Statement::Assign(p, r) => StatementV::Assign(p@, r@),
            Statement::Nop => StatementV::Nop,
        }
    }
}

/// How a basic block ends; only calls carry dataflow.
#[derive(Clone, Debug)]
pub enum Terminator {
    Call { args: Vec<Operand>, destination: Place },
    Other,
}

/// Mathematical image of a [`Terminator`].
pub ghost enum TerminatorV {
    Call { args: Seq<OperandV>, destination: PlaceV },
    Other,
}

impl View for Terminator {
    type V = TerminatorV;

    open spec fn view(&self) -> TerminatorV {
        match self {
            Terminator::Call { args, destination } => TerminatorV::Call {
                args: args@.map_values(|o: Operand| o@),
                destination: destination@,
            },
            Terminator::Other => TerminatorV::Other,
        }
    }
}

/// One basic block: statements followed by a terminator.
#[derive(Clone, Debug)]
pub struct BasicBlock {
    pub statements: Vec<Statement>,
    pub terminator: Terminator,
}

/// Mathematical image of a [`BasicBlock`].
pub ghost struct BlockV {
    pub statements: Seq<StatementV>,
    pub terminator: TerminatorV,
}

impl View for BasicBlock {
    type V = BlockV;

    open spec fn view(&self) -> BlockV {
        BlockV {
            statements: self.statements@.map_values(|s: Statement| s@),
            terminator: self.terminator@,
        }
    }
}

/// A function body: its basic blocks, ordered by the front end in
/// reverse postorder, which linearizes control flow.
#[derive(Clone, Debug)]
pub struct Body {
    pub blocks: Vec<BasicBlock>,
}

impl View for Body {
    type V = Seq<BlockV>;

    open spec fn view(&self) -> Seq<BlockV> {
        self.blocks@.map_values(|b: BasicBlock| b@)
    }
}

/// The first field index a place's projection selects, if any; a place
/// with no field projection stands for the whole slot.
pub open spec fn place_first_field(p: PlaceV) -> Option<usize> {
    first_field_in(p.proj)
}

/// The first field index among a projection sequence.
pub open spec fn first_field_in(proj: Seq<PlaceElem>) -> Option<usize>
    decreases proj.len(),
{
    if proj.len() == 0 {
        None
    } else {
        match proj[0] {
            PlaceElem::Field(f) => Some(f),
            _ => first_field_in(proj.subrange(1, proj.len() as int)),
        }
    }
}

/// Computes the first field index a place's projection selects.
pub fn first_field_of_place(place: &Place) -> (r: Option<usize>)
    ensures
        r == place_first_field(place@),
{
    let n = place.projection.len();
    assert(place.projection@.subrange(0, n as int) =~= place.projection@);
    for i in 0..n
        invariant
            n == place.projection@.len(),
            first_field_in(place.projection@.subrange(i as int, n as int)) == first_field_in(
                place.projection@,
            ),
    {
        assert(place.projection@.subrange(i as int, n as int)[0] == place.projection@[i as int]);
        match place.projection[i] {
            PlaceElem::Field(f) => {
                return Some(f);
            },
            _ => {},
        }
        assert(place.projection@.subrange(i as int, n as int).subrange(1, (n - i) as int)
            =~= place.projection@.subrange(i + 1, n as int));
    }
    assert(place.projection@.subrange(n as int, n as int).len() == 0);
    None
}

} // verus!

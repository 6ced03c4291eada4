//! What the compiler knows while it lowers a program: the type of every
//! slot of the frame, and the slot of every variable.

use vstd::prelude::*;
use vstd::hash_map::StringHashMap;
use crate::value::Type;

verus! {

/// The name of the variable that holds a program's input.
pub const INPUT: &'static str = "input";

/// The compiler's knowledge as a mathematical value: the frame layout, which
/// gives the type of each slot, and the table from a variable's name to its
/// slot.
pub struct Scope {
    pub layout: Seq<Type>,
    pub slots: Map<Seq<char>, nat>,
}

impl Scope {
    /// Every variable has a slot of the layout, and no two share one.
    #[verifier::opaque]
    pub open spec fn wf(self) -> bool {
        &&& forall|name: Seq<char>| #[trigger]
            self.slots.contains_key(name) ==> self.slots[name] < self.layout.len()
        &&& forall|a: Seq<char>, b: Seq<char>|
            #![trigger self.slots[a], self.slots[b]]
            self.slots.contains_key(a) && self.slots.contains_key(b) && self.slots[a]
                == self.slots[b] ==> a == b
    }

    /// The scope in which a program's body is lowered: one slot, of the
    /// input's type, that the input variable names.
    pub open spec fn initial(input: Type) -> Scope {
        Scope { layout: seq![input], slots: map![INPUT@ => 0nat] }
    }

    /// Whether a variable of this name is declared.
    pub open spec fn declares(self, name: Seq<char>) -> bool {
        self.slots.contains_key(name)
    }

    /// The declared type of a variable.
    pub open spec fn type_of(self, name: Seq<char>) -> Type {
        self.layout[self.slots[name] as int]
    }

    /// This scope with one more variable, in a new slot at the end of the
    /// layout.
    pub open spec fn declare(self, name: Seq<char>, ty: Type) -> Scope {
        Scope {
            layout: self.layout.push(ty),
            slots: self.slots.insert(name, self.layout.len()),
        }
    }

    /// Whether this scope keeps all that `earlier` holds: the layout begins
    /// with the earlier one, and every variable declared earlier still has
    /// its slot.
    #[verifier::opaque]
    pub open spec fn extends(self, earlier: Scope) -> bool {
        &&& earlier.layout.len() <= self.layout.len()
        &&& forall|i: int|
            0 <= i < earlier.layout.len() ==> #[trigger] self.layout[i] == earlier.layout[i]
        &&& forall|name: Seq<char>| #[trigger]
            earlier.slots.contains_key(name) ==> self.slots.contains_key(name)
                && self.slots[name] == earlier.slots[name]
    }
}

/// The initial scope is well formed.
pub proof fn lemma_initial_wf(input: Type)
    ensures
        Scope::initial(input).wf(),
{
    reveal(Scope::wf);
}

/// A scope extends itself.
pub proof fn lemma_extends_reflexive(a: Scope)
    ensures
        a.extends(a),
{
    reveal(Scope::extends);
}

/// A scope that extends another has at least as many slots.
pub proof fn lemma_extends_longer(later: Scope, earlier: Scope)
    requires
        later.extends(earlier),
    ensures
        earlier.layout.len() <= later.layout.len(),
{
    reveal(Scope::extends);
}

/// Extending a scope twice extends it.
pub proof fn lemma_extends_transitive(a: Scope, b: Scope, c: Scope)
    requires
        b.extends(a),
        c.extends(b),
    ensures
        c.extends(a),
{
    reveal(Scope::extends);
    assert forall|i: int| 0 <= i < a.layout.len() implies #[trigger] c.layout[i] == a.layout[i] by {
        assert(b.layout[i] == a.layout[i]);
    }
}

/// Declaring a new variable keeps a scope well formed, and extends it.
pub proof fn lemma_declare(a: Scope, name: Seq<char>, ty: Type)
    requires
        a.wf(),
        !a.declares(name),
    ensures
        a.declare(name, ty).wf(),
        a.declare(name, ty).extends(a),
{
    reveal(Scope::wf);
    reveal(Scope::extends);
    let b = a.declare(name, ty);
    assert forall|x: Seq<char>, y: Seq<char>|
        b.slots.contains_key(x) && b.slots.contains_key(y) && #[trigger] b.slots[x]
            == #[trigger] b.slots[y] implies x == y by {
        if x != name && y != name {
            assert(a.slots[x] == a.slots[y]);
        } else if x != name {
            assert(a.slots.contains_key(x));
            assert(a.slots[x] < a.layout.len());
        } else if y != name {
            assert(a.slots.contains_key(y));
            assert(a.slots[y] < a.layout.len());
        }
    }
}

/// In a scope that extends another, a variable of the earlier one is still
/// declared, in its slot and with its type.
pub proof fn lemma_extends_keeps(later: Scope, earlier: Scope, name: Seq<char>)
    requires
        earlier.wf(),
        later.extends(earlier),
        earlier.declares(name),
    ensures
        later.declares(name),
        later.slots[name] == earlier.slots[name],
        later.type_of(name) == earlier.type_of(name),
        earlier.slots[name] < earlier.layout.len() <= later.layout.len(),
{
    reveal(Scope::wf);
    reveal(Scope::extends);
}

/// The compiler's state while it lowers a program.
pub struct CompilationContext {
    pub stack: Vec<Type>,
    pub vars: StringHashMap<usize>,
}

impl View for CompilationContext {
    type V = Scope;

    open spec fn view(&self) -> Scope {
        Scope { layout: self.stack@, slots: self.vars@.map_values(|slot: usize| slot as nat) }
    }
}

impl CompilationContext {
    /// The context in which a program's body is lowered.
    pub fn new(input: Type) -> (ctxt: CompilationContext)
        ensures
            ctxt@ == Scope::initial(input),
            ctxt@.wf(),
    {
        let mut stack: Vec<Type> = Vec::new();
        stack.push(input);
        let mut vars: StringHashMap<usize> = StringHashMap::new();
        vars.insert(INPUT.to_owned(), 0);
        let ctxt = CompilationContext { stack, vars };
        proof {
            assert(ctxt@.layout =~= seq![input]);
            assert(ctxt@.slots =~= map![INPUT@ => 0nat]);
            lemma_initial_wf(input);
        }
        ctxt
    }

    /// The slot and the type of a variable, if it is declared.
    pub fn lookup(&self, name: &str) -> (found: Option<(usize, Type)>)
        requires
            self@.wf(),
        ensures
            match found {
                Some((slot, ty)) => self@.declares(name@) && self@.slots[name@] == slot && slot
                    < self@.layout.len() && ty == self@.type_of(name@),
                None => !self@.declares(name@),
            },
    {
        proof {
            reveal(Scope::wf);
        }
        match self.vars.get(name) {
            Some(slot) => {
                assert(self@.slots.contains_key(name@) && self@.slots[name@] == *slot);
                Some((*slot, self.stack[*slot]))
            },
            None => None,
        }
    }

    /// Declares a variable in a new slot, and gives the slot.
    pub fn declare(&mut self, name: &str, ty: Type) -> (slot: usize)
        requires
            old(self)@.wf(),
            !old(self)@.declares(name@),
        ensures
            final(self)@ == old(self)@.declare(name@, ty),
            final(self)@.wf(),
            final(self)@.extends(old(self)@),
            slot == old(self)@.layout.len(),
    {
        let ghost before = self@;
        let slot = self.stack.len();
        self.stack.push(ty);
        self.vars.insert(name.to_owned(), slot);
        proof {
            lemma_declare(before, name@, ty);
            assert(self@.slots =~= before.slots.insert(name@, slot as nat));
        }
        slot
    }
}

} // verus!

//! Operator overloading: binding binary operators to the traits that
//! implement them, and recording the `Ordering` type the comparison
//! operators return.

use vstd::prelude::*;
use crate::hir::Trait;
use crate::node_interner::{BinaryOpKind, NodeInterner, TraitId, TraitMethodId};
use crate::tables::{alist_get, alist_insert};
use crate::types::{clone_type, Type};

verus! {

/// The binary operator a trait name overloads, if any.
pub open spec fn spec_operator_of_name(name: Seq<char>) -> Option<BinaryOpKind> {
    if name == "Add"@ {
        Some(BinaryOpKind::Add)
    } else if name == "Sub"@ {
        Some(BinaryOpKind::Subtract)
    } else if name == "Mul"@ {
        Some(BinaryOpKind::Multiply)
    } else if name == "Div"@ {
        Some(BinaryOpKind::Divide)
    } else if name == "Rem"@ {
        Some(BinaryOpKind::Modulo)
    } else if name == "Eq"@ {
        Some(BinaryOpKind::Equal)
    } else if name == "Ord"@ {
        Some(BinaryOpKind::Less)
    } else if name == "BitAnd"@ {
        Some(BinaryOpKind::And)
    } else if name == "BitOr"@ {
        Some(BinaryOpKind::Or)
    } else if name == "BitXor"@ {
        Some(BinaryOpKind::Xor)
    } else if name == "Shl"@ {
        Some(BinaryOpKind::ShiftLeft)
    } else if name == "Shr"@ {
        Some(BinaryOpKind::ShiftRight)
    } else {
        None
    }
}

/// An `Ord`-style trait whose first method has a generalized function
/// signature, from which the comparison return type can be read.
pub open spec fn spec_cmp_shape_ok(tr: Trait) -> bool {
    &&& tr.methods@.len() > 0
    &&& tr.methods@[0].typ is Forall
    &&& *tr.methods@[0].typ->Forall_1 is Function
}

/// The return type of the first method of an `Ord`-style trait.
pub open spec fn spec_ordering_return_type(tr: Trait) -> Type {
    *(*tr.methods@[0].typ->Forall_1)->Function_1
}

impl NodeInterner {
    /// The trait overloading `operator`, together with the convention that
    /// the overloadable method is the trait's first method.
    pub fn get_operator_trait_method(&self, operator: BinaryOpKind) -> (r: TraitMethodId)
        requires
            alist_get(self.operator_traits.entries@, operator) is Some,
        ensures
            r == (TraitMethodId {
                trait_id: alist_get(self.operator_traits.entries@, operator)->0,
                method_index: 0,
            }),
    {
        let trait_id = match self.operator_traits.get(&operator) {
            Some(t) => *t,
            None => vstd::pervasive::unreached(),
        };
        TraitMethodId { trait_id, method_index: 0 }
    }

    /// Registers `trait_id` as an operator trait when its name is one of
    /// the recognized operator trait names. `Eq` additionally binds `!=`;
    /// `Ord` additionally binds `<=`, `>` and `>=` and records the
    /// `Ordering` type from its first method's return type.
    pub fn try_add_operator_trait(&mut self, trait_id: TraitId)
        requires
            alist_get(old(self).traits.entries@, trait_id) is Some,
            spec_operator_of_name(
                alist_get(old(self).traits.entries@, trait_id)->0.name.contents@,
            ) == Some(BinaryOpKind::Less) ==> spec_cmp_shape_ok(
                alist_get(old(self).traits.entries@, trait_id)->0,
            ),
        ensures
            ({
                let tr = alist_get(old(self).traits.entries@, trait_id)->0;
                let op = spec_operator_of_name(tr.name.contents@);
                &&& (op is None ==> *final(self) == *old(self))
                &&& (op is Some ==> *final(self) == (NodeInterner {
                    operator_traits: final(self).operator_traits,
                    ordering_type: final(self).ordering_type,
                    ..*old(self)
                }))
                &&& (op is Some && op->0 != BinaryOpKind::Equal && op->0 != BinaryOpKind::Less
                    ==> final(self).operator_traits.entries@ == alist_insert(
                    old(self).operator_traits.entries@,
                    op->0,
                    trait_id,
                ) && final(self).ordering_type == old(self).ordering_type)
                &&& (op == Some(BinaryOpKind::Equal) ==> final(self).operator_traits.entries@
                    == alist_insert(
                    alist_insert(old(self).operator_traits.entries@, BinaryOpKind::Equal, trait_id),
                    BinaryOpKind::NotEqual,
                    trait_id,
                ) && final(self).ordering_type == old(self).ordering_type)
                &&& (op == Some(BinaryOpKind::Less) ==> final(self).operator_traits.entries@
                    == alist_insert(
                    alist_insert(
                        alist_insert(
                            alist_insert(
                                old(self).operator_traits.entries@,
                                BinaryOpKind::Less,
                                trait_id,
                            ),
                            BinaryOpKind::LessEqual,
                            trait_id,
                        ),
                        BinaryOpKind::Greater,
                        trait_id,
                    ),
                    BinaryOpKind::GreaterEqual,
                    trait_id,
                ) && final(self).ordering_type == Some(spec_ordering_return_type(tr)))
            }),
    {
        let name = match self.traits.get(&trait_id) {
            Some(tr) => tr.name.contents.clone(),
            None => vstd::pervasive::unreached(),
        };

        let operator = if name == "Add".to_owned() {
            BinaryOpKind::Add
        } else if name == "Sub".to_owned() {
            BinaryOpKind::Subtract
        } else if name == "Mul".to_owned() {
            BinaryOpKind::Multiply
        } else if name == "Div".to_owned() {
            BinaryOpKind::Divide
        } else if name == "Rem".to_owned() {
            BinaryOpKind::Modulo
        } else if name == "Eq".to_owned() {
            BinaryOpKind::Equal
        } else if name == "Ord".to_owned() {
            BinaryOpKind::Less
        } else if name == "BitAnd".to_owned() {
            BinaryOpKind::And
        } else if name == "BitOr".to_owned() {
            BinaryOpKind::Or
        } else if name == "BitXor".to_owned() {
            BinaryOpKind::Xor
        } else if name == "Shl".to_owned() {
            BinaryOpKind::ShiftLeft
        } else if name == "Shr".to_owned() {
            BinaryOpKind::ShiftRight
        } else {
            return;
        };

        self.operator_traits.insert(operator, trait_id);

        // Some operators require a matching entry for related operators.
        match operator {
            BinaryOpKind::Equal => {
                self.operator_traits.insert(BinaryOpKind::NotEqual, trait_id);
            },
            BinaryOpKind::Less => {
                self.operator_traits.insert(BinaryOpKind::LessEqual, trait_id);
                self.operator_traits.insert(BinaryOpKind::Greater, trait_id);
                self.operator_traits.insert(BinaryOpKind::GreaterEqual, trait_id);

                let ret = match self.traits.get(&trait_id) {
                    Some(tr) => {
                        match &tr.methods[0].typ {
                            Type::Forall(_, body) => match &**body {
                                Type::Function(_, return_type, _) => clone_type(return_type),
                                _ => vstd::pervasive::unreached(),
                            },
                            _ => vstd::pervasive::unreached(),
                        }
                    },
                    None => vstd::pervasive::unreached(),
                };
                self.ordering_type = Some(ret);
            },
            _ => {},
        }
    }

    /// Installs a placeholder trait for every operator, so that operator
    /// lookups succeed in stores built without a standard library.
    pub fn populate_dummy_operator_traits(&mut self)
        ensures
            *final(self) == (NodeInterner {
                operator_traits: final(self).operator_traits,
                ..*old(self)
            }),
            final(self).operator_traits.entries@ == alist_insert(
                alist_insert(
                alist_insert(
                alist_insert(
                alist_insert(
                alist_insert(
                alist_insert(
                alist_insert(
                alist_insert(
                alist_insert(
                alist_insert(
                alist_insert(
                alist_insert(
                alist_insert(
                alist_insert(
                alist_insert(
                old(self).operator_traits.entries@,
                BinaryOpKind::Add,
                TraitId(crate::node_interner::ModuleId { krate: crate::node_interner::CrateId(u32::MAX), local_id: crate::node_interner::LocalModuleId(u32::MAX) }),
            ),
                BinaryOpKind::Subtract,
                TraitId(crate::node_interner::ModuleId { krate: crate::node_interner::CrateId(u32::MAX), local_id: crate::node_interner::LocalModuleId(u32::MAX) }),
            ),
                BinaryOpKind::Multiply,
                TraitId(crate::node_interner::ModuleId { krate: crate::node_interner::CrateId(u32::MAX), local_id: crate::node_interner::LocalModuleId(u32::MAX) }),
            ),
                BinaryOpKind::Divide,
                TraitId(crate::node_interner::ModuleId { krate: crate::node_interner::CrateId(u32::MAX), local_id: crate::node_interner::LocalModuleId(u32::MAX) }),
            ),
                BinaryOpKind::Modulo,
                TraitId(crate::node_interner::ModuleId { krate: crate::node_interner::CrateId(u32::MAX), local_id: crate::node_interner::LocalModuleId(u32::MAX) }),
            ),
                BinaryOpKind::Equal,
                TraitId(crate::node_interner::ModuleId { krate: crate::node_interner::CrateId(u32::MAX), local_id: crate::node_interner::LocalModuleId(u32::MAX) }),
            ),
                BinaryOpKind::NotEqual,
                TraitId(crate::node_interner::ModuleId { krate: crate::node_interner::CrateId(u32::MAX), local_id: crate::node_interner::LocalModuleId(u32::MAX) }),
            ),
                BinaryOpKind::Less,
                TraitId(crate::node_interner::ModuleId { krate: crate::node_interner::CrateId(u32::MAX), local_id: crate::node_interner::LocalModuleId(u32::MAX) }),
            ),
                BinaryOpKind::LessEqual,
                TraitId(crate::node_interner::ModuleId { krate: crate::node_interner::CrateId(u32::MAX), local_id: crate::node_interner::LocalModuleId(u32::MAX) }),
            ),
                BinaryOpKind::Greater,
                TraitId(crate::node_interner::ModuleId { krate: crate::node_interner::CrateId(u32::MAX), local_id: crate::node_interner::LocalModuleId(u32::MAX) }),
            ),
                BinaryOpKind::GreaterEqual,
                TraitId(crate::node_interner::ModuleId { krate: crate::node_interner::CrateId(u32::MAX), local_id: crate::node_interner::LocalModuleId(u32::MAX) }),
            ),
                BinaryOpKind::And,
                TraitId(crate::node_interner::ModuleId { krate: crate::node_interner::CrateId(u32::MAX), local_id: crate::node_interner::LocalModuleId(u32::MAX) }),
            ),
                BinaryOpKind::Or,
                TraitId(crate::node_interner::ModuleId { krate: crate::node_interner::CrateId(u32::MAX), local_id: crate::node_interner::LocalModuleId(u32::MAX) }),
            ),
                BinaryOpKind::Xor,
                TraitId(crate::node_interner::ModuleId { krate: crate::node_interner::CrateId(u32::MAX), local_id: crate::node_interner::LocalModuleId(u32::MAX) }),
            ),
                BinaryOpKind::ShiftLeft,
                TraitId(crate::node_interner::ModuleId { krate: crate::node_interner::CrateId(u32::MAX), local_id: crate::node_interner::LocalModuleId(u32::MAX) }),
            ),
                BinaryOpKind::ShiftRight,
                TraitId(crate::node_interner::ModuleId { krate: crate::node_interner::CrateId(u32::MAX), local_id: crate::node_interner::LocalModuleId(u32::MAX) }),
            ),
    {
        let dummy_trait = TraitId::dummy_id();
        self.operator_traits.insert(BinaryOpKind::Add, dummy_trait);
        self.operator_traits.insert(BinaryOpKind::Subtract, dummy_trait);
        self.operator_traits.insert(BinaryOpKind::Multiply, dummy_trait);
        self.operator_traits.insert(BinaryOpKind::Divide, dummy_trait);
        self.operator_traits.insert(BinaryOpKind::Modulo, dummy_trait);
        self.operator_traits.insert(BinaryOpKind::Equal, dummy_trait);
        self.operator_traits.insert(BinaryOpKind::NotEqual, dummy_trait);
        self.operator_traits.insert(BinaryOpKind::Less, dummy_trait);
        self.operator_traits.insert(BinaryOpKind::LessEqual, dummy_trait);
        self.operator_traits.insert(BinaryOpKind::Greater, dummy_trait);
        self.operator_traits.insert(BinaryOpKind::GreaterEqual, dummy_trait);
        self.operator_traits.insert(BinaryOpKind::And, dummy_trait);
        self.operator_traits.insert(BinaryOpKind::Or, dummy_trait);
        self.operator_traits.insert(BinaryOpKind::Xor, dummy_trait);
        self.operator_traits.insert(BinaryOpKind::ShiftLeft, dummy_trait);
        self.operator_traits.insert(BinaryOpKind::ShiftRight, dummy_trait);
    }
}

} // verus!

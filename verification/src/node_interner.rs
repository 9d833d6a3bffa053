//! The central store of the index: the node arena, the typed id layer, and
//! every table that name resolution and type checking populate.

use vstd::prelude::*;
use crate::arena::{Arena, Index};
use crate::ast::{
    Attributes, ContractFunctionType, FunctionDefinition, FunctionVisibility, Ident,
    SecondaryAttribute, UnresolvedStruct, UnresolvedTrait, UnresolvedTypeAlias,
};
use crate::hir::{
    FuncMeta, HirExpression, HirFunction, HirLetStatement, HirStatement, StructType, Trait,
    TraitConstraint, TraitImpl, TypeAliasType,
};
use crate::location::{FileId, Location, Span};
use crate::tables::{alist_get, alist_insert, KeyEq, Table};
use crate::types::{sat_inc, Type, TypeBindings, TypeVariableId, TypeVariableKind};

verus! {

// ---------------------------------------------------------------------------
// Ids
// ---------------------------------------------------------------------------

#[derive(Clone, Copy, PartialEq, Eq, Structural, Debug)]
pub struct CrateId(pub u32);

impl CrateId {
    pub fn dummy_id() -> (r: CrateId)
        ensures
            r == (CrateId(u32::MAX)),
    {
        CrateId(u32::MAX)
    }
}

#[derive(Clone, Copy, PartialEq, Eq, Structural, Debug)]
pub struct LocalModuleId(pub u32);

impl LocalModuleId {
    pub fn dummy_id() -> (r: LocalModuleId)
        ensures
            r == (LocalModuleId(u32::MAX)),
    {
        LocalModuleId(u32::MAX)
    }
}

#[derive(Clone, Copy, PartialEq, Eq, Structural, Debug)]
pub struct ModuleId {
    pub krate: CrateId,
    pub local_id: LocalModuleId,
}

impl ModuleId {
    pub fn dummy_id() -> (r: ModuleId)
        ensures
            r == (ModuleId { krate: CrateId(u32::MAX), local_id: LocalModuleId(u32::MAX) }),
    {
        ModuleId { krate: CrateId(u32::MAX), local_id: LocalModuleId(u32::MAX) }
    }
}

/// Identifies a named binding. Definition ids are dense indices into the
/// definition list; the dummy id is the reserved error placeholder.
#[derive(Clone, Copy, PartialEq, Eq, Structural, Debug)]
pub struct DefinitionId(pub usize);

impl DefinitionId {
    /// The placeholder id reported after an error.
    pub fn dummy_id() -> (r: DefinitionId)
        ensures
            r == (DefinitionId(usize::MAX)),
    {
        DefinitionId(usize::MAX)
    }

    /// Maps this id into the shared index space; the generation tag keeps
    /// definition indices apart from arena node indices.
    pub fn as_index(self) -> (r: Index)
        ensures
            r == (Index { index: self.0, generation: u64::MAX }),
    {
        Index { index: self.0, generation: u64::MAX }
    }
}

#[derive(Clone, Copy, PartialEq, Eq, Structural, Debug)]
pub struct StmtId(pub Index);

impl StmtId {
    /// The placeholder id reported after an error; resolution ultimately
    /// fails before such an id is read back.
    pub fn dummy_id() -> (r: StmtId)
        ensures
            r == (StmtId(Index { index: usize::MAX, generation: 0u64 })),
    {
        StmtId(Index { index: usize::MAX, generation: 0 })
    }

    pub fn as_index(self) -> (r: Index)
        ensures
            r == self.0,
    {
        self.0
    }
}

#[derive(Clone, Copy, PartialEq, Eq, Structural, Debug)]
pub struct ExprId(pub Index);

impl ExprId {
    pub open spec fn spec_empty_block_id() -> ExprId {
        ExprId(Index { index: 0, generation: 0 })
    }

    /// The canonical id of the pre-seeded empty block expression.
    pub fn empty_block_id() -> (r: ExprId)
        ensures
            r == ExprId::spec_empty_block_id(),
    {
        ExprId(Index { index: 0, generation: 0 })
    }

    pub fn as_index(self) -> (r: Index)
        ensures
            r == self.0,
    {
        self.0
    }
}

#[derive(Clone, Copy, PartialEq, Eq, Structural, Debug)]
pub struct FuncId(pub Index);

impl FuncId {
    /// The placeholder id reported after an error.
    pub fn dummy_id() -> (r: FuncId)
        ensures
            r == (FuncId(Index { index: usize::MAX, generation: 0u64 })),
    {
        FuncId(Index { index: usize::MAX, generation: 0 })
    }

    pub fn as_index(self) -> (r: Index)
        ensures
            r == self.0,
    {
        self.0
    }
}

#[derive(Clone, Copy, PartialEq, Eq, Structural, Debug)]
pub struct StructId(pub ModuleId);

impl StructId {
    /// The placeholder id reported after an error.
    pub fn dummy_id() -> (r: StructId)
        ensures
            r == (StructId(ModuleId {
                krate: CrateId(u32::MAX),
                local_id: LocalModuleId(u32::MAX),
            })),
    {
        StructId(ModuleId { krate: CrateId::dummy_id(), local_id: LocalModuleId::dummy_id() })
    }

    pub fn module_id(self) -> (r: ModuleId)
        ensures
            r == self.0,
    {
        self.0
    }

    pub fn krate(self) -> (r: CrateId)
        ensures
            r == self.0.krate,
    {
        self.0.krate
    }

    pub fn local_module_id(self) -> (r: LocalModuleId)
        ensures
            r == self.0.local_id,
    {
        self.0.local_id
    }
}

#[derive(Clone, Copy, PartialEq, Eq, Structural, Debug)]
pub struct TypeAliasId(pub usize);

impl TypeAliasId {
    pub fn dummy_id() -> (r: TypeAliasId)
        ensures
            r == (TypeAliasId(usize::MAX)),
    {
        TypeAliasId(usize::MAX)
    }
}

#[derive(Clone, Copy, PartialEq, Eq, Structural, Debug)]
pub struct TraitId(pub ModuleId);

impl TraitId {
    /// The placeholder id reported after an error.
    pub fn dummy_id() -> (r: TraitId)
        ensures
            r == (TraitId(ModuleId {
                krate: CrateId(u32::MAX),
                local_id: LocalModuleId(u32::MAX),
            })),
    {
        TraitId(ModuleId { krate: CrateId::dummy_id(), local_id: LocalModuleId::dummy_id() })
    }
}

/// Identifies a trait implementation; assigned densely in insertion order.
#[derive(Clone, Copy, PartialEq, Eq, Structural, Debug)]
pub struct TraitImplId(pub usize);

/// A method of a trait, as `(trait, index into the trait's method list)`.
#[derive(Clone, Copy, PartialEq, Eq, Structural, Debug)]
pub struct TraitMethodId {
    pub trait_id: TraitId,
    pub method_index: usize,
}

#[derive(Clone, Copy, PartialEq, Eq, Structural, Debug)]
pub enum BinaryOpKind {
    Add,
    Subtract,
    Multiply,
    Divide,
    Equal,
    NotEqual,
    Less,
    LessEqual,
    Greater,
    GreaterEqual,
    And,
    Or,
    Xor,
    ShiftRight,
    ShiftLeft,
    Modulo,
}

// ---------------------------------------------------------------------------
// Table keys
// ---------------------------------------------------------------------------

impl KeyEq for Index {
    open spec fn key_eqv(self, other: Self) -> bool {
        self == other
    }

    proof fn key_eqv_laws(a: Self, b: Self, c: Self) {
    }

    fn key_eq(&self, other: &Self) -> (r: bool) {
        let r = self.index == other.index && self.generation == other.generation;
        proof {
            assert(self.key_eqv(*other) == (*self == *other));
        }
        r
    }
}

impl KeyEq for FuncId {
    open spec fn key_eqv(self, other: Self) -> bool {
        self == other
    }

    proof fn key_eqv_laws(a: Self, b: Self, c: Self) {
    }

    fn key_eq(&self, other: &Self) -> (r: bool) {
        let r = self.0.key_eq(&other.0);
        proof {
            assert(self.key_eqv(*other) == (*self == *other));
        }
        r
    }
}

impl KeyEq for ExprId {
    open spec fn key_eqv(self, other: Self) -> bool {
        self == other
    }

    proof fn key_eqv_laws(a: Self, b: Self, c: Self) {
    }

    fn key_eq(&self, other: &Self) -> (r: bool) {
        let r = self.0.key_eq(&other.0);
        proof {
            assert(self.key_eqv(*other) == (*self == *other));
        }
        r
    }
}

impl KeyEq for StmtId {
    open spec fn key_eqv(self, other: Self) -> bool {
        self == other
    }

    proof fn key_eqv_laws(a: Self, b: Self, c: Self) {
    }

    fn key_eq(&self, other: &Self) -> (r: bool) {
        let r = self.0.key_eq(&other.0);
        proof {
            assert(self.key_eqv(*other) == (*self == *other));
        }
        r
    }
}

impl KeyEq for StructId {
    open spec fn key_eqv(self, other: Self) -> bool {
        self == other
    }

    proof fn key_eqv_laws(a: Self, b: Self, c: Self) {
    }

    fn key_eq(&self, other: &Self) -> (r: bool) {
        let r = self.0 == other.0;
        proof {
            assert(self.key_eqv(*other) == (*self == *other));
        }
        r
    }
}

impl KeyEq for TraitId {
    open spec fn key_eqv(self, other: Self) -> bool {
        self == other
    }

    proof fn key_eqv_laws(a: Self, b: Self, c: Self) {
    }

    fn key_eq(&self, other: &Self) -> (r: bool) {
        let r = self.0 == other.0;
        proof {
            assert(self.key_eqv(*other) == (*self == *other));
        }
        r
    }
}

impl KeyEq for BinaryOpKind {
    open spec fn key_eqv(self, other: Self) -> bool {
        self == other
    }

    proof fn key_eqv_laws(a: Self, b: Self, c: Self) {
    }

    fn key_eq(&self, other: &Self) -> (r: bool) {
        let r = *self == *other;
        proof {
            assert(self.key_eqv(*other) == (*self == *other));
        }
        r
    }
}

// ---------------------------------------------------------------------------
// Stored records
// ---------------------------------------------------------------------------

/// One stored node: a function body, a statement or an expression.
#[derive(Clone, PartialEq, Eq, Debug)]
pub enum Node {
    Function(HirFunction),
    Statement(HirStatement),
    Expression(HirExpression),
}

/// How a trait is satisfied for a type: by a concrete impl, or assumed by a
/// surrounding `where` clause.
#[derive(Clone, PartialEq, Eq, Debug)]
pub enum TraitImplKind {
    Normal(TraitImplId),
    /// Assumed impls have no impl id: they do not refer back to source code.
    Assumed { object_type: Type },
}

/// Methods of one type sharing one name. Inherent (`direct`) methods take
/// precedence over methods brought in by trait impls; a name present in
/// both lists is ambiguous and forces type-directed dispatch.
#[derive(Clone, PartialEq, Eq, Debug)]
pub struct Methods {
    pub direct: Vec<FuncId>,
    pub trait_impl_methods: Vec<FuncId>,
}

impl Methods {
    pub open spec fn spec_get_unambiguous(self) -> Option<FuncId> {
        if self.direct@.len() == 1 && self.trait_impl_methods@.len() == 0 {
            Some(self.direct@[0])
        } else if self.direct@.len() == 0 && self.trait_impl_methods@.len() == 1 {
            Some(self.trait_impl_methods@[0])
        } else {
            None
        }
    }

    pub fn empty() -> (r: Methods)
        ensures
            r.direct@.len() == 0,
            r.trait_impl_methods@.len() == 0,
    {
        Methods { direct: Vec::new(), trait_impl_methods: Vec::new() }
    }

    /// The single candidate for this name, when there is exactly one and no
    /// inherent/trait ambiguity; `None` otherwise.
    pub fn get_unambiguous(&self) -> (r: Option<FuncId>)
        ensures
            r == self.spec_get_unambiguous(),
    {
        if self.direct.len() == 1 && self.trait_impl_methods.len() == 0 {
            Some(self.direct[0])
        } else if self.direct.len() == 0 && self.trait_impl_methods.len() == 1 {
            Some(self.trait_impl_methods[0])
        } else {
            None
        }
    }

    pub fn add_method(&mut self, method: FuncId, is_trait_method: bool)
        ensures
            is_trait_method ==> final(self).trait_impl_methods@ == old(self).trait_impl_methods@
                .push(method) && final(self).direct@ == old(self).direct@,
            !is_trait_method ==> final(self).direct@ == old(self).direct@.push(method)
                && final(self).trait_impl_methods@ == old(self).trait_impl_methods@,
    {
        if is_trait_method {
            self.trait_impl_methods.push(method);
        } else {
            self.direct.push(method);
        }
    }

    pub fn clone_methods(&self) -> (r: Methods)
        ensures
            r.direct@ == self.direct@,
            r.trait_impl_methods@ == self.trait_impl_methods@,
    {
        let mut direct: Vec<FuncId> = Vec::new();
        let mut i: usize = 0;
        while i < self.direct.len()
            invariant
                i <= self.direct@.len(),
                direct@ == self.direct@.take(i as int),
            decreases self.direct@.len() - i,
        {
            direct.push(self.direct[i]);
            proof {
                assert(self.direct@.take(i as int).push(self.direct@[i as int]) =~= self.direct@
                    .take(i as int + 1));
            }
            i = i + 1;
        }
        let mut trait_impl_methods: Vec<FuncId> = Vec::new();
        let mut j: usize = 0;
        while j < self.trait_impl_methods.len()
            invariant
                j <= self.trait_impl_methods@.len(),
                trait_impl_methods@ == self.trait_impl_methods@.take(j as int),
            decreases self.trait_impl_methods@.len() - j,
        {
            trait_impl_methods.push(self.trait_impl_methods[j]);
            proof {
                assert(self.trait_impl_methods@.take(j as int).push(
                    self.trait_impl_methods@[j as int],
                ) =~= self.trait_impl_methods@.take(j as int + 1));
            }
            j = j + 1;
        }
        proof {
            assert(self.direct@.take(self.direct@.len() as int) =~= self.direct@);
            assert(self.trait_impl_methods@.take(self.trait_impl_methods@.len() as int)
                =~= self.trait_impl_methods@);
        }
        Methods { direct, trait_impl_methods }
    }
}

/// What a definition names, and for local definitions its initializer.
#[derive(Clone, PartialEq, Eq, Debug)]
pub enum DefinitionKind {
    Function(FuncId),
    Global(ExprId),
    /// Locals defined in let statements or parameters; parameters carry no
    /// initializer expression.
    Local(Option<ExprId>),
    /// Generic types in functions are declared as variables in scope in
    /// case they resolve to numeric generics later.
    GenericType(TypeVariableId),
}

impl DefinitionKind {
    pub open spec fn spec_is_global(self) -> bool {
        self is Global
    }

    /// True for global variables; false for top-level functions.
    pub fn is_global(&self) -> (r: bool)
        ensures
            r == self.spec_is_global(),
    {
        matches!(self, DefinitionKind::Global(..))
    }

    pub open spec fn spec_get_rhs(self) -> Option<ExprId> {
        match self {
            DefinitionKind::Function(_) => None,
            DefinitionKind::Global(id) => Some(id),
            DefinitionKind::Local(id) => id,
            DefinitionKind::GenericType(_) => None,
        }
    }

    pub fn get_rhs(&self) -> (r: Option<ExprId>)
        ensures
            r == self.spec_get_rhs(),
    {
        match self {
            DefinitionKind::Function(_) => None,
            DefinitionKind::Global(id) => Some(*id),
            DefinitionKind::Local(id) => *id,
            DefinitionKind::GenericType(_) => None,
        }
    }
}

#[derive(Clone, PartialEq, Eq, Debug)]
pub struct DefinitionInfo {
    pub name: String,
    pub mutable: bool,
    pub kind: DefinitionKind,
    pub location: Location,
}

impl DefinitionInfo {
    /// True for global variables; false for top-level functions.
    pub fn is_global(&self) -> (r: bool)
        ensures
            r == self.kind.spec_is_global(),
    {
        self.kind.is_global()
    }
}

#[derive(Clone, PartialEq, Eq, Debug)]
pub struct GlobalInfo {
    pub ident: Ident,
    pub local_id: LocalModuleId,
}

/// What is known of a function at definition-collection time, before name
/// resolution fills in its [`FuncMeta`].
#[derive(Clone, PartialEq, Eq, Debug)]
pub struct FunctionModifiers {
    pub name: String,
    pub visibility: FunctionVisibility,
    pub attributes: Attributes,
    pub is_unconstrained: bool,
    /// `Secret` for every function that is not in a contract.
    pub contract_function_type: Option<ContractFunctionType>,
    /// Whether a contract function may only be called by itself; `None`
    /// outside contracts.
    pub is_internal: Option<bool>,
}

impl FunctionModifiers {
    /// A plain set of modifiers for generated or testing functions.
    pub fn new() -> (r: FunctionModifiers)
        ensures
            r.name@ == Seq::<char>::empty(),
            r.visibility == FunctionVisibility::Public,
            r.attributes.function is None,
            r.attributes.secondary@.len() == 0,
            r.is_unconstrained == false,
            r.contract_function_type is None,
            r.is_internal is None,
    {
        FunctionModifiers {
            name: String::new(),
            visibility: FunctionVisibility::Public,
            attributes: Attributes::empty(),
            is_unconstrained: false,
            contract_function_type: None,
            is_internal: None,
        }
    }
}

// ---------------------------------------------------------------------------
// The store
// ---------------------------------------------------------------------------

/// The central store of the index. All nodes live in one arena; every other
/// table is keyed by one of the id types above.
pub struct NodeInterner {
    pub nodes: Arena<Node>,
    pub func_meta: Table<FuncId, FuncMeta>,
    pub function_definition_ids: Table<FuncId, DefinitionId>,
    /// Filled during definition collection, before `func_meta`.
    pub function_modifiers: Table<FuncId, FunctionModifiers>,
    pub function_modules: Table<FuncId, ModuleId>,
    pub id_to_location: Table<Index, Location>,
    pub definitions: Vec<DefinitionInfo>,
    pub id_to_type: Table<Index, Type>,
    pub structs: Table<StructId, StructType>,
    pub struct_attributes: Table<StructId, Vec<SecondaryAttribute>>,
    pub type_aliases: Vec<TypeAliasType>,
    pub traits: Table<TraitId, Trait>,
    /// Indexed by `TraitImplId`: the vector index of an impl is its id.
    pub trait_implementations: Vec<TraitImpl>,
    /// Per trait, the object types that implement it, scanned linearly
    /// during lookup in insertion order.
    pub trait_implementation_map: Table<TraitId, Vec<(Type, TraitImplKind)>>,
    pub selected_trait_implementations: Table<ExprId, TraitImplKind>,
    pub operator_traits: Table<BinaryOpKind, TraitId>,
    /// The `Ordering` type, recorded when the `Ord` trait is registered.
    pub ordering_type: Option<Type>,
    pub instantiation_bindings: Table<ExprId, TypeBindings>,
    pub field_indices: Table<ExprId, usize>,
    pub globals: Table<StmtId, GlobalInfo>,
    pub next_type_variable_id: u64,
    /// The ambient universe of type-variable bindings; successful impl
    /// lookups extend it.
    pub type_variable_bindings: TypeBindings,
    pub struct_methods: Table<(StructId, String), Methods>,
    pub primitive_methods: Table<(TypeMethodKey, String), Methods>,
    pub func_id_to_trait: Table<FuncId, (Type, TraitId)>,
}

/// The primitive type shapes that can carry methods. Fields and integers
/// share a key so their method names cannot clash.
#[derive(Clone, Copy, PartialEq, Eq, Structural, Debug)]
pub enum TypeMethodKey {
    FieldOrInt,
    Array,
    Bool,
    String,
    FmtString,
    Unit,
    Tuple,
    Function,
    Generic,
}

impl KeyEq for (StructId, String) {
    open spec fn key_eqv(self, other: Self) -> bool {
        self.0 == other.0 && self.1@ == other.1@
    }

    proof fn key_eqv_laws(a: Self, b: Self, c: Self) {
    }

    fn key_eq(&self, other: &Self) -> (r: bool) {
        let r = self.0.key_eq(&other.0) && self.1 == other.1;
        proof {
            assert(self.key_eqv(*other) == (self.0 == other.0 && self.1@ == other.1@));
        }
        r
    }
}

impl KeyEq for (TypeMethodKey, String) {
    open spec fn key_eqv(self, other: Self) -> bool {
        self.0 == other.0 && self.1@ == other.1@
    }

    proof fn key_eqv_laws(a: Self, b: Self, c: Self) {
    }

    fn key_eq(&self, other: &Self) -> (r: bool) {
        let r = self.0 == other.0 && self.1 == other.1;
        proof {
            assert(self.key_eqv(*other) == (self.0 == other.0 && self.1@ == other.1@));
        }
        r
    }
}

impl NodeInterner {
    // -- well-typed id predicates ------------------------------------------

    pub open spec fn spec_node_at(self, index: Index) -> Node
        recommends
            self.nodes.spec_valid(index),
    {
        self.nodes.items@[index.index as int]
    }

    pub open spec fn spec_is_expr(self, id: ExprId) -> bool {
        self.nodes.spec_valid(id.0) && self.spec_node_at(id.0) is Expression
    }

    pub open spec fn spec_is_stmt(self, id: StmtId) -> bool {
        self.nodes.spec_valid(id.0) && self.spec_node_at(id.0) is Statement
    }

    pub open spec fn spec_is_fn(self, id: FuncId) -> bool {
        self.nodes.spec_valid(id.0) && self.spec_node_at(id.0) is Function
    }

    // -- construction ------------------------------------------------------

    /// A fresh store. The arena is pre-seeded with the canonical empty
    /// block expression at index 0, so `ExprId::empty_block_id` resolves in
    /// every store from the start.
    pub fn new() -> (r: NodeInterner)
        ensures
            r.nodes.items@.len() == 1,
            r.spec_is_expr(ExprId::spec_empty_block_id()),
            crate::hir::is_empty_block(r.spec_node_at(
                ExprId::spec_empty_block_id().0,
            )->Expression_0),
            r.func_meta.entries@.len() == 0,
            r.function_definition_ids.entries@.len() == 0,
            r.function_modifiers.entries@.len() == 0,
            r.function_modules.entries@.len() == 0,
            r.id_to_location.entries@.len() == 0,
            r.definitions@.len() == 0,
            r.id_to_type.entries@.len() == 0,
            r.structs.entries@.len() == 0,
            r.struct_attributes.entries@.len() == 0,
            r.type_aliases@.len() == 0,
            r.traits.entries@.len() == 0,
            r.trait_implementations@.len() == 0,
            r.trait_implementation_map.entries@.len() == 0,
            r.selected_trait_implementations.entries@.len() == 0,
            r.operator_traits.entries@.len() == 0,
            r.ordering_type is None,
            r.instantiation_bindings.entries@.len() == 0,
            r.field_indices.entries@.len() == 0,
            r.globals.entries@.len() == 0,
            r.next_type_variable_id == 0,
            r.type_variable_bindings.entries@.len() == 0,
            r.struct_methods.entries@.len() == 0,
            r.primitive_methods.entries@.len() == 0,
            r.func_id_to_trait.entries@.len() == 0,
    {
        let mut interner = NodeInterner {
            nodes: Arena::new(),
            func_meta: Table::new(),
            function_definition_ids: Table::new(),
            function_modifiers: Table::new(),
            function_modules: Table::new(),
            id_to_location: Table::new(),
            definitions: Vec::new(),
            id_to_type: Table::new(),
            structs: Table::new(),
            struct_attributes: Table::new(),
            type_aliases: Vec::new(),
            traits: Table::new(),
            trait_implementations: Vec::new(),
            trait_implementation_map: Table::new(),
            selected_trait_implementations: Table::new(),
            operator_traits: Table::new(),
            ordering_type: None,
            instantiation_bindings: Table::new(),
            field_indices: Table::new(),
            globals: Table::new(),
            next_type_variable_id: 0,
            type_variable_bindings: Table::new(),
            struct_methods: Table::new(),
            primitive_methods: Table::new(),
            func_id_to_trait: Table::new(),
        };
        let expr_id = interner.push_expr(HirExpression::empty_block());
        interner
    }

    // -- interning nodes ---------------------------------------------------

    /// Interns a HIR statement.
    pub fn push_stmt(&mut self, stmt: HirStatement) -> (r: StmtId)
        ensures
            *final(self) == (NodeInterner { nodes: final(self).nodes, ..*old(self) }),
            final(self).nodes.items@ == old(self).nodes.items@.push(Node::Statement(stmt)),
            r.0.index == old(self).nodes.items@.len(),
            r.0.generation == 0,
            final(self).spec_is_stmt(r),
    {
        StmtId(self.nodes.insert(Node::Statement(stmt)))
    }

    /// Interns a HIR expression.
    pub fn push_expr(&mut self, expr: HirExpression) -> (r: ExprId)
        ensures
            *final(self) == (NodeInterner { nodes: final(self).nodes, ..*old(self) }),
            final(self).nodes.items@ == old(self).nodes.items@.push(Node::Expression(expr)),
            r.0.index == old(self).nodes.items@.len(),
            r.0.generation == 0,
            final(self).spec_is_expr(r),
    {
        ExprId(self.nodes.insert(Node::Expression(expr)))
    }

    /// Interns a HIR function.
    pub fn push_fn(&mut self, func: HirFunction) -> (r: FuncId)
        ensures
            *final(self) == (NodeInterner { nodes: final(self).nodes, ..*old(self) }),
            final(self).nodes.items@ == old(self).nodes.items@.push(Node::Function(func)),
            r.0.index == old(self).nodes.items@.len(),
            r.0.generation == 0,
            final(self).spec_is_fn(r),
    {
        FuncId(self.nodes.insert(Node::Function(func)))
    }

    // -- locations ---------------------------------------------------------

    /// Stores the source location of an interned expression.
    pub fn push_expr_location(&mut self, expr_id: ExprId, span: Span, file: FileId)
        ensures
            *final(self) == (NodeInterner { id_to_location: final(self).id_to_location, ..*old(self) }),
            final(self).id_to_location.entries@ == alist_insert(
                old(self).id_to_location.entries@,
                expr_id.0,
                Location { span, file },
            ),
    {
        self.id_to_location.insert(expr_id.as_index(), Location::new(span, file));
    }

    /// The location of an interned item; it must have been recorded.
    pub fn id_location(&self, index: Index) -> (r: Location)
        requires
            alist_get(self.id_to_location.entries@, index) is Some,
        ensures
            Some(r) == alist_get(self.id_to_location.entries@, index),
    {
        match self.id_to_location.get(&index) {
            Some(loc) => *loc,
            None => vstd::pervasive::unreached(),
        }
    }

    pub fn expr_span(&self, expr_id: &ExprId) -> (r: Span)
        requires
            alist_get(self.id_to_location.entries@, expr_id.0) is Some,
        ensures
            r == alist_get(self.id_to_location.entries@, expr_id.0)->0.span,
    {
        self.id_location(expr_id.as_index()).span
    }

    pub fn expr_location(&self, expr_id: &ExprId) -> (r: Location)
        requires
            alist_get(self.id_to_location.entries@, expr_id.0) is Some,
        ensures
            Some(r) == alist_get(self.id_to_location.entries@, expr_id.0),
    {
        self.id_location(expr_id.as_index())
    }

    /// Scans the location table for the item at `location`: among the
    /// recorded spans of the same file that contain the query, the smallest
    /// (innermost) wins; on a tie the earliest recorded entry wins.
    pub fn find_location_index(&self, location: Location) -> (r: Option<Index>)
        ensures
            r == spec_find_location_index(self.id_to_location.entries@, location),
    {
        let mut best: Option<(Index, Location)> = None;
        let n = self.id_to_location.entries.len();
        let mut i: usize = 0;
        proof {
            assert(self.id_to_location.entries@.take(0) =~= Seq::<(Index, Location)>::empty());
        }
        while i < n
            invariant
                i <= n,
                n == self.id_to_location.entries@.len(),
                spec_find_location_candidate(
                    self.id_to_location.entries@.take(i as int),
                    location,
                ) == best,
            decreases n - i,
        {
            let entry_index = self.id_to_location.entries[i].0;
            let entry_loc = self.id_to_location.entries[i].1;
            if entry_loc.contains(&location) {
                match &best {
                    Some(current) => {
                        if entry_loc.span.is_smaller(&current.1.span) {
                            best = Some((entry_index, entry_loc));
                        }
                    },
                    None => {
                        best = Some((entry_index, entry_loc));
                    },
                }
            }
            proof {
                assert(self.id_to_location.entries@.take(i as int + 1).drop_last()
                    =~= self.id_to_location.entries@.take(i as int));
                assert(self.id_to_location.entries@.take(i as int + 1).last()
                    == self.id_to_location.entries@[i as int]);
            }
            i = i + 1;
        }
        proof {
            assert(self.id_to_location.entries@.take(n as int) =~= self.id_to_location.entries@);
        }
        match best {
            Some(b) => Some(b.0),
            None => None,
        }
    }
}

/// The fold `find_location_index` computes: the running best candidate
/// after scanning a prefix of the location table.
pub open spec fn spec_find_location_candidate(
    s: Seq<(Index, Location)>,
    query: Location,
) -> Option<(Index, Location)>
    decreases s.len(),
{
    if s.len() == 0 {
        None
    } else {
        let prev = spec_find_location_candidate(s.drop_last(), query);
        let last = s.last();
        if last.1.spec_contains(query) {
            match prev {
                Some(cur) => if last.1.span.spec_size() < cur.1.span.spec_size() {
                    Some(last)
                } else {
                    prev
                },
                None => Some(last),
            }
        } else {
            prev
        }
    }
}

pub open spec fn spec_find_location_index(
    s: Seq<(Index, Location)>,
    query: Location,
) -> Option<Index> {
    match spec_find_location_candidate(s, query) {
        Some(c) => Some(c.0),
        None => None,
    }
}

/// The candidate returned by the location scan is a containing entry of
/// minimal span size; when nothing is returned, no entry contains the query.
pub proof fn lemma_find_location_minimal(s: Seq<(Index, Location)>, query: Location)
    ensures
        match spec_find_location_candidate(s, query) {
            Some(c) => {
                &&& exists|j: int| 0 <= j < s.len() && s[j] == c
                &&& c.1.spec_contains(query)
                &&& forall|j: int|
                    0 <= j < s.len() && s[j].1.spec_contains(query) ==> c.1.span.spec_size()
                        <= s[j].1.span.spec_size()
            },
            None => forall|j: int| 0 <= j < s.len() ==> !s[j].1.spec_contains(query),
        },
    decreases s.len(),
{
    if s.len() > 0 {
        lemma_find_location_minimal(s.drop_last(), query);
        let t = s.drop_last();
        assert(forall|j: int| 0 <= j < t.len() ==> t[j] == s[j]);
        match spec_find_location_candidate(s, query) {
            Some(c) => {
                match spec_find_location_candidate(t, query) {
                    Some(cur) => {
                        if exists|j: int| 0 <= j < t.len() && t[j] == cur {
                            let j = choose|j: int| 0 <= j < t.len() && t[j] == cur;
                            assert(s[j] == cur);
                        }
                    },
                    None => {},
                }
                assert(s.last() == s[s.len() - 1]);
            },
            None => {},
        }
    }
}


impl Default for NodeInterner {
    /// A fresh store, as `NodeInterner::new` builds it.
    fn default() -> (r: NodeInterner)
        ensures
            r.nodes.items@.len() == 1,
            r.spec_is_expr(ExprId::spec_empty_block_id()),
            crate::hir::is_empty_block(r.spec_node_at(
                ExprId::spec_empty_block_id().0,
            )->Expression_0),
            r.trait_implementations@.len() == 0,
            r.next_type_variable_id == 0,
    {
        NodeInterner::new()
    }
}

// ---------------------------------------------------------------------------
// Value clones that preserve equality
// ---------------------------------------------------------------------------

pub fn clone_global_info(g: &GlobalInfo) -> (r: GlobalInfo)
    ensures
        r == *g,
{
    GlobalInfo { ident: crate::ast::clone_ident(&g.ident), local_id: g.local_id }
}

pub fn clone_trait_impl_kind(k: &TraitImplKind) -> (r: TraitImplKind)
    ensures
        r == *k,
{
    match k {
        TraitImplKind::Normal(id) => TraitImplKind::Normal(*id),
        TraitImplKind::Assumed { object_type } => TraitImplKind::Assumed {
            object_type: crate::types::clone_type(object_type),
        },
    }
}

/// Clones a list of `(name, function)` pairs, preserving the sequence.
pub fn clone_method_ids(v: &Vec<(String, FuncId)>) -> (r: Vec<(String, FuncId)>)
    ensures
        r@ == v@,
{
    let mut r: Vec<(String, FuncId)> = Vec::new();
    let mut i: usize = 0;
    while i < v.len()
        invariant
            i <= v@.len(),
            r@ == v@.take(i as int),
        decreases v@.len() - i,
    {
        let name = v[i].0.clone();
        assert(name == v@[i as int].0);
        r.push((name, v[i].1));
        proof {
            assert(v@.take(i as int).push(v@[i as int]) =~= v@.take(i as int + 1));
        }
        i = i + 1;
    }
    proof {
        assert(v@.take(v@.len() as int) =~= v@);
    }
    r
}

impl NodeInterner {
    // -- types of ids ------------------------------------------------------

    /// Stores the type of an interned expression.
    pub fn push_expr_type(&mut self, expr_id: &ExprId, typ: Type)
        ensures
            *final(self) == (NodeInterner { id_to_type: final(self).id_to_type, ..*old(self) }),
            final(self).id_to_type.entries@ == alist_insert(
                old(self).id_to_type.entries@,
                expr_id.0,
                typ,
            ),
    {
        self.id_to_type.insert(expr_id.as_index(), typ);
    }

    /// Stores the type of an interned definition.
    pub fn push_definition_type(&mut self, definition_id: DefinitionId, typ: Type)
        ensures
            *final(self) == (NodeInterner { id_to_type: final(self).id_to_type, ..*old(self) }),
            final(self).id_to_type.entries@ == alist_insert(
                old(self).id_to_type.entries@,
                (Index { index: definition_id.0, generation: u64::MAX }),
                typ,
            ),
    {
        self.id_to_type.insert(definition_id.as_index(), typ);
    }

    /// The type recorded for an item, or `Error` when none was recorded
    /// (sentinel ids in particular resolve to `Error`, never to a fault).
    pub fn id_type(&self, index: Index) -> (r: Type)
        ensures
            r == match alist_get(self.id_to_type.entries@, index) {
                Some(t) => t,
                None => Type::Error,
            },
    {
        match self.id_to_type.get(&index) {
            Some(t) => crate::types::clone_type(t),
            None => Type::Error,
        }
    }

    // -- updating nodes in place -------------------------------------------

    /// Replaces the interned statement behind `stmt_id`.
    pub fn update_statement(&mut self, stmt_id: &StmtId, new_stmt: HirStatement)
        requires
            old(self).spec_is_stmt(*stmt_id),
        ensures
            *final(self) == (NodeInterner { nodes: final(self).nodes, ..*old(self) }),
            final(self).nodes.items@ == old(self).nodes.items@.update(
                stmt_id.0.index as int,
                Node::Statement(new_stmt),
            ),
    {
        self.nodes.set(stmt_id.0, Node::Statement(new_stmt));
    }

    /// Replaces the interned expression behind `expr_id`.
    pub fn update_expression(&mut self, expr_id: ExprId, new_expr: HirExpression)
        requires
            old(self).spec_is_expr(expr_id),
        ensures
            *final(self) == (NodeInterner { nodes: final(self).nodes, ..*old(self) }),
            final(self).nodes.items@ == old(self).nodes.items@.update(
                expr_id.0.index as int,
                Node::Expression(new_expr),
            ),
    {
        self.nodes.set(expr_id.0, Node::Expression(new_expr));
    }

    /// Replaces the expression behind `id` with a new expression.
    pub fn replace_expr(&mut self, id: &ExprId, new_expr: HirExpression)
        requires
            old(self).spec_is_expr(*id),
        ensures
            *final(self) == (NodeInterner { nodes: final(self).nodes, ..*old(self) }),
            final(self).nodes.items@ == old(self).nodes.items@.update(
                id.0.index as int,
                Node::Expression(new_expr),
            ),
    {
        self.nodes.set(id.0, Node::Expression(new_expr));
    }

    /// Replaces the statement a collected global resolves to.
    pub fn update_global(&mut self, stmt_id: StmtId, hir_stmt: HirStatement)
        requires
            old(self).spec_is_stmt(stmt_id),
        ensures
            *final(self) == (NodeInterner { nodes: final(self).nodes, ..*old(self) }),
            final(self).nodes.items@ == old(self).nodes.items@.update(
                stmt_id.0.index as int,
                Node::Statement(hir_stmt),
            ),
    {
        self.nodes.set(stmt_id.0, Node::Statement(hir_stmt));
    }

    /// Fills in a function that was interned empty during definition
    /// collection.
    pub fn update_fn(&mut self, func_id: FuncId, hir_func: HirFunction)
        requires
            old(self).spec_is_fn(func_id),
        ensures
            *final(self) == (NodeInterner { nodes: final(self).nodes, ..*old(self) }),
            final(self).nodes.items@ == old(self).nodes.items@.update(
                func_id.0.index as int,
                Node::Function(hir_func),
            ),
    {
        self.nodes.set(func_id.0, Node::Function(hir_func));
    }

    // -- reading nodes back ------------------------------------------------

    /// The interned statement behind `stmt_id`.
    pub fn statement(&self, stmt_id: &StmtId) -> (r: &HirStatement)
        requires
            self.spec_is_stmt(*stmt_id),
        ensures
            *r == self.spec_node_at(stmt_id.0)->Statement_0,
    {
        match self.nodes.get(stmt_id.0) {
            Some(Node::Statement(stmt)) => stmt,
            _ => vstd::pervasive::unreached(),
        }
    }

    /// The interned let statement behind `stmt_id`.
    pub fn let_statement(&self, stmt_id: &StmtId) -> (r: HirLetStatement)
        requires
            self.spec_is_stmt(*stmt_id),
            self.spec_node_at(stmt_id.0)->Statement_0 is Let,
        ensures
            r == self.spec_node_at(stmt_id.0)->Statement_0->Let_0,
    {
        match self.nodes.get(stmt_id.0) {
            Some(Node::Statement(HirStatement::Let(let_stmt))) => *let_stmt,
            _ => vstd::pervasive::unreached(),
        }
    }

    /// The interned expression behind `expr_id`.
    pub fn expression(&self, expr_id: &ExprId) -> (r: &HirExpression)
        requires
            self.spec_is_expr(*expr_id),
        ensures
            *r == self.spec_node_at(expr_id.0)->Expression_0,
    {
        match self.nodes.get(expr_id.0) {
            Some(Node::Expression(expr)) => expr,
            _ => vstd::pervasive::unreached(),
        }
    }

    /// The interned function behind `func_id`.
    pub fn function(&self, func_id: &FuncId) -> (r: HirFunction)
        requires
            self.spec_is_fn(*func_id),
        ensures
            r == self.spec_node_at(func_id.0)->Function_0,
    {
        match self.nodes.get(func_id.0) {
            Some(Node::Function(func)) => *func,
            _ => vstd::pervasive::unreached(),
        }
    }

    // -- definitions -------------------------------------------------------

    /// Appends a definition, handing out the next dense id. A function
    /// definition additionally records the function's definition id.
    pub fn push_definition(
        &mut self,
        name: String,
        mutable: bool,
        definition: DefinitionKind,
        location: Location,
    ) -> (r: DefinitionId)
        ensures
            r == (DefinitionId(old(self).definitions@.len() as usize)),
            final(self).definitions@ == old(self).definitions@.push(
                DefinitionInfo { name, mutable, kind: definition, location },
            ),
            definition is Function ==> final(self).function_definition_ids.entries@
                == alist_insert(
                old(self).function_definition_ids.entries@,
                definition->Function_0,
                r,
            ),
            !(definition is Function) ==> final(self).function_definition_ids
                == old(self).function_definition_ids,
            *final(self) == (NodeInterner {
                definitions: final(self).definitions,
                function_definition_ids: final(self).function_definition_ids,
                ..*old(self)
            }),
    {
        let id = DefinitionId(self.definitions.len());
        if let DefinitionKind::Function(func_id) = definition {
            self.function_definition_ids.insert(func_id, id);
        }
        self.definitions.push(DefinitionInfo { name, mutable, kind: definition, location });
        id
    }

    /// The definition behind `id`, which must exist; sentinel ids must go
    /// through `try_definition` instead.
    pub fn definition(&self, id: DefinitionId) -> (r: &DefinitionInfo)
        requires
            id.0 < self.definitions@.len(),
        ensures
            *r == self.definitions@[id.0 as int],
    {
        &self.definitions[id.0]
    }

    /// The definition behind `id`, or `None` while resolution may still be
    /// looking at unresolved or sentinel ids.
    pub fn try_definition(&self, id: DefinitionId) -> (r: Option<&DefinitionInfo>)
        ensures
            id.0 < self.definitions@.len() ==> r == Some(&self.definitions@[id.0 as int]),
            id.0 >= self.definitions@.len() ==> r is None,
    {
        if id.0 < self.definitions.len() {
            Some(&self.definitions[id.0])
        } else {
            None
        }
    }

    /// The name of a definition.
    pub fn definition_name(&self, id: DefinitionId) -> (r: &String)
        requires
            id.0 < self.definitions@.len(),
        ensures
            *r == self.definitions@[id.0 as int].name,
    {
        &self.definition(id).name
    }

    // -- functions ---------------------------------------------------------

    /// Interns an empty function, to be filled by `update_fn` later.
    pub fn push_empty_fn(&mut self) -> (r: FuncId)
        ensures
            *final(self) == (NodeInterner { nodes: final(self).nodes, ..*old(self) }),
            final(self).nodes.items@ == old(self).nodes.items@.push(
                Node::Function(HirFunction(ExprId::spec_empty_block_id())),
            ),
            r.0.index == old(self).nodes.items@.len(),
            r.0.generation == 0,
            final(self).spec_is_fn(r),
    {
        self.push_fn(HirFunction::empty())
    }

    /// Interns a function's metadata; the `FuncId` must already exist.
    pub fn push_fn_meta(&mut self, func_data: FuncMeta, func_id: FuncId)
        ensures
            *final(self) == (NodeInterner { func_meta: final(self).func_meta, ..*old(self) }),
            final(self).func_meta.entries@ == alist_insert(
                old(self).func_meta.entries@,
                func_id,
                func_data,
            ),
    {
        self.func_meta.insert(func_id, func_data);
    }

    /// The metadata of `func_id`, which must have been resolved.
    pub fn function_meta(&self, func_id: &FuncId) -> (r: &FuncMeta)
        requires
            alist_get(self.func_meta.entries@, *func_id) is Some,
        ensures
            Some(*r) == alist_get(self.func_meta.entries@, *func_id),
    {
        match self.func_meta.get(func_id) {
            Some(m) => m,
            None => vstd::pervasive::unreached(),
        }
    }

    pub fn try_function_meta(&self, func_id: &FuncId) -> (r: Option<&FuncMeta>)
        ensures
            match r {
                Some(m) => alist_get(self.func_meta.entries@, *func_id) == Some(*m),
                None => alist_get(self.func_meta.entries@, *func_id) is None,
            },
    {
        self.func_meta.get(func_id)
    }

    /// Records a function's modifiers and module, then its definition.
    pub fn push_function_definition(
        &mut self,
        func: FuncId,
        modifiers: FunctionModifiers,
        module: ModuleId,
        location: Location,
    ) -> (r: DefinitionId)
        ensures
            r == (DefinitionId(old(self).definitions@.len() as usize)),
            final(self).function_modifiers.entries@ == alist_insert(
                old(self).function_modifiers.entries@,
                func,
                modifiers,
            ),
            final(self).function_modules.entries@ == alist_insert(
                old(self).function_modules.entries@,
                func,
                module,
            ),
            final(self).definitions@.len() == old(self).definitions@.len() + 1,
            final(self).definitions@.last().name@ == modifiers.name@,
            final(self).definitions@.last().mutable == false,
            final(self).definitions@.last().kind == DefinitionKind::Function(func),
            final(self).definitions@.last().location == location,
            forall|j: int|
                0 <= j < old(self).definitions@.len() ==> final(self).definitions@[j] == old(
                    self,
                ).definitions@[j],
            final(self).function_definition_ids.entries@ == alist_insert(
                old(self).function_definition_ids.entries@,
                func,
                r,
            ),
            *final(self) == (NodeInterner {
                definitions: final(self).definitions,
                function_definition_ids: final(self).function_definition_ids,
                function_modifiers: final(self).function_modifiers,
                function_modules: final(self).function_modules,
                ..*old(self)
            }),
    {
        let name = modifiers.name.clone();
        assert(name == modifiers.name);
        self.function_modifiers.insert(func, modifiers);
        self.function_modules.insert(func, module);
        self.push_definition(name, false, DefinitionKind::Function(func), location)
    }

    /// Records a parsed function: its modifiers are derived from the
    /// definition, with the contract function type defaulting to `Secret`
    /// outside contracts.
    pub fn push_function(
        &mut self,
        id: FuncId,
        function: &FunctionDefinition,
        module: ModuleId,
        location: Location,
    ) -> (r: DefinitionId)
        ensures
            r == (DefinitionId(old(self).definitions@.len() as usize)),
            ({
                let m = alist_get(final(self).function_modifiers.entries@, id);
                &&& m is Some
                &&& m->0.name@ == function.name.contents@
                &&& m->0.visibility == function.visibility
                &&& m->0.attributes.function == function.attributes.function
                &&& m->0.attributes.secondary@ == function.attributes.secondary@
                &&& m->0.is_unconstrained == function.is_unconstrained
                &&& m->0.contract_function_type == Some(
                    if function.is_open {
                        ContractFunctionType::Open
                    } else {
                        ContractFunctionType::Secret
                    },
                )
                &&& m->0.is_internal == Some(function.is_internal)
            }),
            final(self).function_modules.entries@ == alist_insert(
                old(self).function_modules.entries@,
                id,
                module,
            ),
            final(self).definitions@.len() == old(self).definitions@.len() + 1,
            final(self).definitions@.last().kind == DefinitionKind::Function(id),
            final(self).definitions@.last().name@ == function.name.contents@,
            *final(self) == (NodeInterner {
                definitions: final(self).definitions,
                function_definition_ids: final(self).function_definition_ids,
                function_modifiers: final(self).function_modifiers,
                function_modules: final(self).function_modules,
                ..*old(self)
            }),
    {
        let name_string = function.name.contents.clone();
        assert(name_string == function.name.contents);
        let modifiers = FunctionModifiers {
            name: name_string,
            visibility: function.visibility,
            attributes: crate::ast::clone_attributes(&function.attributes),
            is_unconstrained: function.is_unconstrained,
            contract_function_type: Some(
                if function.is_open {
                    ContractFunctionType::Open
                } else {
                    ContractFunctionType::Secret
                },
            ),
            is_internal: Some(function.is_internal),
        };
        let ghost m = modifiers;
        let ghost pre_mods = self.function_modifiers.entries@;
        let r = self.push_function_definition(id, modifiers, module, location);
        proof {
            crate::tables::lemma_alist_get_insert(pre_mods, id, m, id);
        }
        r
    }

    /// Interns a fresh empty function under the given name with default
    /// modifiers and a placeholder module; useful to seed stores in tests.
    pub fn push_test_function_definition(&mut self, name: String) -> (r: FuncId)
        ensures
            r.0.index == old(self).nodes.items@.len(),
            r.0.generation == 0,
            final(self).spec_is_fn(r),
            alist_get(final(self).function_modifiers.entries@, r) is Some,
            alist_get(final(self).function_modifiers.entries@, r)->0.name@ == name@,
    {
        let id = self.push_fn(HirFunction::empty());
        let mut modifiers = FunctionModifiers::new();
        modifiers.name = name;
        let module = ModuleId::dummy_id();
        let location = Location::dummy();
        let ghost pre_mods = self.function_modifiers.entries@;
        let ghost m = modifiers;
        self.push_function_definition(id, modifiers, module, location);
        proof {
            crate::tables::lemma_alist_get_insert(pre_mods, id, m, id);
        }
        id
    }

    /// Records the trait and self type a trait-impl method belongs to.
    pub fn set_function_trait(&mut self, func: FuncId, self_type: Type, trait_id: TraitId)
        ensures
            *final(self) == (NodeInterner {
                func_id_to_trait: final(self).func_id_to_trait,
                ..*old(self)
            }),
            final(self).func_id_to_trait.entries@ == alist_insert(
                old(self).func_id_to_trait.entries@,
                func,
                (self_type, trait_id),
            ),
    {
        self.func_id_to_trait.insert(func, (self_type, trait_id));
    }

    /// The trait and self type a trait-impl method belongs to, if any.
    pub fn get_function_trait(&self, func: &FuncId) -> (r: Option<(Type, TraitId)>)
        ensures
            r == alist_get(self.func_id_to_trait.entries@, *func),
    {
        match self.func_id_to_trait.get(func) {
            Some(p) => Some((crate::types::clone_type(&p.0), p.1)),
            None => None,
        }
    }

    /// The visibility of a function; its modifiers must have been recorded
    /// during definition collection.
    pub fn function_visibility(&self, func: FuncId) -> (r: FunctionVisibility)
        requires
            alist_get(self.function_modifiers.entries@, func) is Some,
        ensures
            r == alist_get(self.function_modifiers.entries@, func)->0.visibility,
    {
        self.function_modifiers(&func).visibility
    }

    /// The module a function was defined in.
    pub fn function_module(&self, func: FuncId) -> (r: ModuleId)
        requires
            alist_get(self.function_modules.entries@, func) is Some,
        ensures
            Some(r) == alist_get(self.function_modules.entries@, func),
    {
        match self.function_modules.get(&func) {
            Some(m) => *m,
            None => vstd::pervasive::unreached(),
        }
    }

    pub fn function_name(&self, func_id: &FuncId) -> (r: &String)
        requires
            alist_get(self.function_modifiers.entries@, *func_id) is Some,
        ensures
            *r == alist_get(self.function_modifiers.entries@, *func_id)->0.name,
    {
        &self.function_modifiers(func_id).name
    }

    pub fn function_modifiers(&self, func_id: &FuncId) -> (r: &FunctionModifiers)
        requires
            alist_get(self.function_modifiers.entries@, *func_id) is Some,
        ensures
            Some(*r) == alist_get(self.function_modifiers.entries@, *func_id),
    {
        match self.function_modifiers.get(func_id) {
            Some(m) => m,
            None => vstd::pervasive::unreached(),
        }
    }

    /// Replaces a function's modifiers (the store hands out no mutable
    /// references, so mutation goes through a whole-value update).
    pub fn function_modifiers_mut(&mut self, func_id: &FuncId, new_modifiers: FunctionModifiers)
        requires
            alist_get(old(self).function_modifiers.entries@, *func_id) is Some,
        ensures
            *final(self) == (NodeInterner {
                function_modifiers: final(self).function_modifiers,
                ..*old(self)
            }),
            final(self).function_modifiers.entries@ == alist_insert(
                old(self).function_modifiers.entries@,
                *func_id,
                new_modifiers,
            ),
    {
        self.function_modifiers.insert(*func_id, new_modifiers);
    }

    pub fn function_attributes(&self, func_id: &FuncId) -> (r: &Attributes)
        requires
            alist_get(self.function_modifiers.entries@, *func_id) is Some,
        ensures
            *r == alist_get(self.function_modifiers.entries@, *func_id)->0.attributes,
    {
        &self.function_modifiers(func_id).attributes
    }

    /// The name of a function together with the span its definition was
    /// resolved at.
    pub fn function_ident(&self, func_id: &FuncId) -> (r: Ident)
        requires
            alist_get(self.function_modifiers.entries@, *func_id) is Some,
            alist_get(self.func_meta.entries@, *func_id) is Some,
        ensures
            r.contents@ == alist_get(self.function_modifiers.entries@, *func_id)->0.name@,
            r.span == alist_get(self.func_meta.entries@, *func_id)->0.name.span,
    {
        let name = self.function_name(func_id).clone();
        let span = self.function_meta(func_id).name.span;
        Ident::new(name, span)
    }

    /// The definition id of a function whose definition was recorded.
    pub fn function_definition_id(&self, function: FuncId) -> (r: DefinitionId)
        requires
            alist_get(self.function_definition_ids.entries@, function) is Some,
        ensures
            Some(r) == alist_get(self.function_definition_ids.entries@, function),
    {
        match self.function_definition_ids.get(&function) {
            Some(d) => *d,
            None => vstd::pervasive::unreached(),
        }
    }

    // -- globals -----------------------------------------------------------

    /// Records a collected global; used to detect duplicate globals and to
    /// restrict their scope to a module.
    pub fn push_global(&mut self, stmt_id: StmtId, ident: Ident, local_id: LocalModuleId)
        ensures
            *final(self) == (NodeInterner { globals: final(self).globals, ..*old(self) }),
            final(self).globals.entries@ == alist_insert(
                old(self).globals.entries@,
                stmt_id,
                GlobalInfo { ident, local_id },
            ),
    {
        self.globals.insert(stmt_id, GlobalInfo { ident, local_id });
    }

    /// Interns an empty global statement, used while collecting globals.
    pub fn push_empty_global(&mut self) -> (r: StmtId)
        ensures
            *final(self) == (NodeInterner { nodes: final(self).nodes, ..*old(self) }),
            final(self).nodes.items@ == old(self).nodes.items@.push(
                Node::Statement(HirStatement::Error),
            ),
            r.0.index == old(self).nodes.items@.len(),
            r.0.generation == 0,
            final(self).spec_is_stmt(r),
    {
        self.push_stmt(HirStatement::Error)
    }

    pub fn get_global(&self, stmt_id: &StmtId) -> (r: Option<GlobalInfo>)
        ensures
            r == alist_get(self.globals.entries@, *stmt_id),
    {
        match self.globals.get(stmt_id) {
            Some(g) => Some(clone_global_info(g)),
            None => None,
        }
    }

    /// All collected globals, keyed by their statement ids.
    pub fn get_all_globals(&self) -> (r: &Table<StmtId, GlobalInfo>)
        ensures
            *r == self.globals,
    {
        &self.globals
    }

    // -- misc per-expression tables -----------------------------------------

    /// Mints a fresh type-variable id. The counter saturates at its
    /// ceiling; no id is reused below it.
    pub fn next_type_variable_id(&mut self) -> (r: TypeVariableId)
        ensures
            *final(self) == (NodeInterner {
                next_type_variable_id: final(self).next_type_variable_id,
                ..*old(self)
            }),
            r == (TypeVariableId(old(self).next_type_variable_id)),
            final(self).next_type_variable_id == crate::types::spec_sat_inc(
                old(self).next_type_variable_id,
            ),
    {
        let id = self.next_type_variable_id;
        self.next_type_variable_id = sat_inc(id);
        TypeVariableId(id)
    }

    /// A fresh unification variable as a type.
    pub fn next_type_variable(&mut self) -> (r: Type)
        ensures
            *final(self) == (NodeInterner {
                next_type_variable_id: final(self).next_type_variable_id,
                ..*old(self)
            }),
            r == Type::TypeVariable(
                TypeVariableId(old(self).next_type_variable_id),
                TypeVariableKind::Normal,
            ),
            final(self).next_type_variable_id == crate::types::spec_sat_inc(
                old(self).next_type_variable_id,
            ),
    {
        let id = self.next_type_variable_id();
        Type::type_variable(id)
    }

    /// Stores the instantiation bindings captured at a call site, for
    /// monomorphization to read back.
    pub fn store_instantiation_bindings(
        &mut self,
        expr_id: ExprId,
        instantiation_bindings: TypeBindings,
    )
        ensures
            *final(self) == (NodeInterner {
                instantiation_bindings: final(self).instantiation_bindings,
                ..*old(self)
            }),
            final(self).instantiation_bindings.entries@ == alist_insert(
                old(self).instantiation_bindings.entries@,
                expr_id,
                instantiation_bindings,
            ),
    {
        self.instantiation_bindings.insert(expr_id, instantiation_bindings);
    }

    pub fn get_instantiation_bindings(&self, expr_id: ExprId) -> (r: &TypeBindings)
        requires
            alist_get(self.instantiation_bindings.entries@, expr_id) is Some,
        ensures
            Some(*r) == alist_get(self.instantiation_bindings.entries@, expr_id),
    {
        match self.instantiation_bindings.get(&expr_id) {
            Some(b) => b,
            None => vstd::pervasive::unreached(),
        }
    }

    /// The field position a member access resolved to.
    pub fn get_field_index(&self, expr_id: ExprId) -> (r: usize)
        requires
            alist_get(self.field_indices.entries@, expr_id) is Some,
        ensures
            Some(r) == alist_get(self.field_indices.entries@, expr_id),
    {
        match self.field_indices.get(&expr_id) {
            Some(i) => *i,
            None => vstd::pervasive::unreached(),
        }
    }

    pub fn set_field_index(&mut self, expr_id: ExprId, index: usize)
        ensures
            *final(self) == (NodeInterner {
                field_indices: final(self).field_indices,
                ..*old(self)
            }),
            final(self).field_indices.entries@ == alist_insert(
                old(self).field_indices.entries@,
                expr_id,
                index,
            ),
    {
        self.field_indices.insert(expr_id, index);
    }

    /// Tags an identifier with the impl selected for it, for
    /// monomorphization to read back (an `Assumed` impl tells the
    /// monomorphizer to select the concrete impl itself).
    pub fn select_impl_for_expression(&mut self, ident_id: ExprId, trait_impl: TraitImplKind)
        ensures
            *final(self) == (NodeInterner {
                selected_trait_implementations: final(self).selected_trait_implementations,
                ..*old(self)
            }),
            final(self).selected_trait_implementations.entries@ == alist_insert(
                old(self).selected_trait_implementations.entries@,
                ident_id,
                trait_impl,
            ),
    {
        self.selected_trait_implementations.insert(ident_id, trait_impl);
    }

    /// The impl selected for an identifier during resolution, if any.
    pub fn get_selected_impl_for_expression(&self, ident_id: ExprId) -> (r: Option<TraitImplKind>)
        ensures
            r == alist_get(self.selected_trait_implementations.entries@, ident_id),
    {
        match self.selected_trait_implementations.get(&ident_id) {
            Some(k) => Some(clone_trait_impl_kind(k)),
            None => None,
        }
    }

    /// The `Ordering` type, which must have been recorded by registering
    /// the `Ord` operator trait.
    pub fn ordering_type(&self) -> (r: Type)
        requires
            self.ordering_type is Some,
        ensures
            Some(r) == self.ordering_type,
    {
        match &self.ordering_type {
            Some(t) => crate::types::clone_type(t),
            None => vstd::pervasive::unreached(),
        }
    }
}


/// What `push_empty_trait` records for an unresolved trait: placeholder
/// generic ids (the real ids are assigned when the trait is resolved), a
/// freshly minted self-type variable, and no methods yet.
pub open spec fn trait_from_unresolved(
    tr: Trait,
    type_id: TraitId,
    u: UnresolvedTrait,
    ctr: u64,
) -> bool {
    &&& tr.id == type_id
    &&& tr.name == u.trait_def.name
    &&& tr.crate_id == u.crate_id
    &&& tr.location == (Location { span: u.trait_def.span, file: u.file_id })
    &&& tr.generics@.len() == u.trait_def.generics@.len()
    &&& forall|j: int| 0 <= j < tr.generics@.len() ==> tr.generics@[j] == (TypeVariableId(0))
    &&& tr.self_type_typevar_id == (TypeVariableId(ctr))
    &&& tr.self_type_typevar == (TypeVariableId(ctr))
    &&& tr.methods@.len() == 0
    &&& tr.method_ids@ == u.method_ids@
    &&& tr.constants@.len() == 0
    &&& tr.types@.len() == 0
}

/// What `new_struct` records for an unresolved struct: its name and span,
/// no fields yet, and placeholder generic ids.
pub open spec fn struct_from_unresolved(
    st: StructType,
    struct_id: StructId,
    u: UnresolvedStruct,
    file_id: FileId,
) -> bool {
    &&& st.id == struct_id
    &&& st.name == u.struct_def.name
    &&& st.location == (Location { span: u.struct_def.span, file: file_id })
    &&& st.fields@.len() == 0
    &&& st.generics@.len() == u.struct_def.generics@.len()
    &&& forall|j: int| 0 <= j < st.generics@.len() ==> st.generics@[j] == (TypeVariableId(0))
}

/// The first function in `metas` whose recorded name is `name`.
pub open spec fn spec_find_function(
    metas: Seq<(FuncId, FuncMeta)>,
    mods: Seq<(FuncId, FunctionModifiers)>,
    name: Seq<char>,
) -> Option<FuncId>
    decreases metas.len(),
{
    if metas.len() == 0 {
        None
    } else if alist_get(mods, metas[0].0) is Some && alist_get(mods, metas[0].0)->0.name@
        == name {
        Some(metas[0].0)
    } else {
        spec_find_function(metas.drop_first(), mods, name)
    }
}

impl NodeInterner {
    /// Builds a placeholder vector of generic ids, one per declared
    /// generic parameter; the trait or struct is later resolved to its
    /// actual ids.
    fn placeholder_generics(count: usize) -> (r: Vec<TypeVariableId>)
        ensures
            r@.len() == count,
            forall|j: int| 0 <= j < r@.len() ==> r@[j] == (TypeVariableId(0)),
    {
        let mut generics: Vec<TypeVariableId> = Vec::new();
        let mut i: usize = 0;
        while i < count
            invariant
                i <= count,
                generics@.len() == i,
                forall|j: int| 0 <= j < i as int ==> generics@[j] == (TypeVariableId(0)),
            decreases count - i,
        {
            generics.push(TypeVariableId(0));
            i = i + 1;
        }
        generics
    }

    /// Records an unresolved trait: generic arity with placeholder ids, a
    /// fresh self-type variable, and an empty method list.
    pub fn push_empty_trait(&mut self, type_id: TraitId, unresolved_trait: &UnresolvedTrait)
        ensures
            *final(self) == (NodeInterner {
                traits: final(self).traits,
                next_type_variable_id: final(self).next_type_variable_id,
                ..*old(self)
            }),
            final(self).next_type_variable_id == crate::types::spec_sat_inc(
                old(self).next_type_variable_id,
            ),
            exists|tr: Trait|
                final(self).traits.entries@ == alist_insert(old(self).traits.entries@, type_id, tr)
                    && trait_from_unresolved(
                    tr,
                    type_id,
                    *unresolved_trait,
                    old(self).next_type_variable_id,
                ),
    {
        let self_type_typevar_id = self.next_type_variable_id();

        let new_trait = Trait {
            id: type_id,
            name: crate::ast::clone_ident(&unresolved_trait.trait_def.name),
            crate_id: unresolved_trait.crate_id,
            location: Location::new(unresolved_trait.trait_def.span, unresolved_trait.file_id),
            generics: Self::placeholder_generics(unresolved_trait.trait_def.generics.len()),
            self_type_typevar_id,
            self_type_typevar: self_type_typevar_id,
            methods: Vec::new(),
            method_ids: clone_method_ids(&unresolved_trait.method_ids),
            constants: Vec::new(),
            types: Vec::new(),
        };
        let ghost g = new_trait;
        let ghost pre = self.traits.entries@;
        self.traits.insert(type_id, new_trait);
        proof {
            assert(self.traits.entries@ == alist_insert(pre, type_id, g));
            assert(trait_from_unresolved(
                g,
                type_id,
                *unresolved_trait,
                old(self).next_type_variable_id,
            ));
        }
    }

    /// Records an unresolved struct with no fields and placeholder
    /// generics, together with its attributes, and hands out its id.
    pub fn new_struct(
        &mut self,
        typ: &UnresolvedStruct,
        krate: CrateId,
        local_id: LocalModuleId,
        file_id: FileId,
    ) -> (r: StructId)
        ensures
            r == (StructId(ModuleId { krate, local_id })),
            *final(self) == (NodeInterner {
                structs: final(self).structs,
                struct_attributes: final(self).struct_attributes,
                ..*old(self)
            }),
            exists|st: StructType|
                final(self).structs.entries@ == alist_insert(old(self).structs.entries@, r, st)
                    && struct_from_unresolved(st, r, *typ, file_id),
            exists|attrs: Vec<SecondaryAttribute>|
                final(self).struct_attributes.entries@ == alist_insert(
                    old(self).struct_attributes.entries@,
                    r,
                    attrs,
                ) && attrs@ == typ.struct_def.attributes@,
    {
        let struct_id = StructId(ModuleId { krate, local_id });
        let name = crate::ast::clone_ident(&typ.struct_def.name);

        let no_fields: Vec<(Ident, Type)> = Vec::new();
        let generics = Self::placeholder_generics(typ.struct_def.generics.len());

        let location = Location::new(typ.struct_def.span, file_id);
        let new_struct = StructType::new(struct_id, name, location, no_fields, generics);
        let ghost g = new_struct;
        let ghost pre = self.structs.entries@;
        self.structs.insert(struct_id, new_struct);
        proof {
            assert(self.structs.entries@ == alist_insert(pre, struct_id, g));
            assert(struct_from_unresolved(g, struct_id, *typ, file_id));
        }
        let attrs = crate::ast::clone_string_vec(&typ.struct_def.attributes);
        let ghost ga = attrs;
        let ghost pre_a = self.struct_attributes.entries@;
        self.struct_attributes.insert(struct_id, attrs);
        proof {
            assert(self.struct_attributes.entries@ == alist_insert(pre_a, struct_id, ga));
        }
        struct_id
    }

    /// Appends a type alias, aliased to `Error` until `set_type_alias`
    /// installs the real type.
    pub fn push_type_alias(&mut self, typ: &UnresolvedTypeAlias) -> (r: TypeAliasId)
        ensures
            r == (TypeAliasId(old(self).type_aliases@.len() as usize)),
            *final(self) == (NodeInterner { type_aliases: final(self).type_aliases, ..*old(self) }),
            final(self).type_aliases@.len() == old(self).type_aliases@.len() + 1,
            forall|j: int|
                0 <= j < old(self).type_aliases@.len() ==> final(self).type_aliases@[j] == old(
                    self,
                ).type_aliases@[j],
            ({
                let last = final(self).type_aliases@.last();
                &&& last.id == r
                &&& last.name == typ.type_alias_def.name
                &&& last.span == typ.type_alias_def.span
                &&& last.typ == Type::Error
                &&& last.generics@.len() == typ.type_alias_def.generics@.len()
                &&& forall|j: int|
                    0 <= j < last.generics@.len() ==> last.generics@[j] == (TypeVariableId(0))
            }),
    {
        let type_id = TypeAliasId(self.type_aliases.len());

        self.type_aliases.push(
            TypeAliasType::new(
                type_id,
                crate::ast::clone_ident(&typ.type_alias_def.name),
                typ.type_alias_def.span,
                Type::Error,
                Self::placeholder_generics(typ.type_alias_def.generics.len()),
            ),
        );

        type_id
    }

    /// Replaces a stored struct wholesale; mutation goes through the store
    /// so every reference to the struct observes the update.
    pub fn update_struct(&mut self, type_id: StructId, new_struct: StructType)
        requires
            alist_get(old(self).structs.entries@, type_id) is Some,
        ensures
            *final(self) == (NodeInterner { structs: final(self).structs, ..*old(self) }),
            final(self).structs.entries@ == alist_insert(
                old(self).structs.entries@,
                type_id,
                new_struct,
            ),
    {
        self.structs.insert(type_id, new_struct);
    }

    /// Replaces a stored trait wholesale.
    pub fn update_trait(&mut self, trait_id: TraitId, new_trait: Trait)
        requires
            alist_get(old(self).traits.entries@, trait_id) is Some,
        ensures
            *final(self) == (NodeInterner { traits: final(self).traits, ..*old(self) }),
            final(self).traits.entries@ == alist_insert(
                old(self).traits.entries@,
                trait_id,
                new_trait,
            ),
    {
        self.traits.insert(trait_id, new_trait);
    }

    /// Installs the resolved type and generics of an alias.
    pub fn set_type_alias(&mut self, type_id: TypeAliasId, typ: Type, generics: Vec<
        TypeVariableId,
    >)
        requires
            type_id.0 < old(self).type_aliases@.len(),
        ensures
            *final(self) == (NodeInterner { type_aliases: final(self).type_aliases, ..*old(self) }),
            final(self).type_aliases@.len() == old(self).type_aliases@.len(),
            forall|j: int|
                0 <= j < old(self).type_aliases@.len() && j != type_id.0 as int
                    ==> final(self).type_aliases@[j] == old(self).type_aliases@[j],
            ({
                let updated = final(self).type_aliases@[type_id.0 as int];
                let was = old(self).type_aliases@[type_id.0 as int];
                &&& updated.id == was.id
                &&& updated.name == was.name
                &&& updated.span == was.span
                &&& updated.typ == typ
                &&& updated.generics == generics
            }),
    {
        let type_alias_type = &mut self.type_aliases[type_id.0];
        type_alias_type.set_type_and_generics(typ, generics);
    }

    pub fn get_struct(&self, id: StructId) -> (r: &StructType)
        requires
            alist_get(self.structs.entries@, id) is Some,
        ensures
            Some(*r) == alist_get(self.structs.entries@, id),
    {
        match self.structs.get(&id) {
            Some(s) => s,
            None => vstd::pervasive::unreached(),
        }
    }

    pub fn struct_attributes(&self, struct_id: &StructId) -> (r: &Vec<SecondaryAttribute>)
        requires
            alist_get(self.struct_attributes.entries@, *struct_id) is Some,
        ensures
            Some(*r) == alist_get(self.struct_attributes.entries@, *struct_id),
    {
        match self.struct_attributes.get(struct_id) {
            Some(a) => a,
            None => vstd::pervasive::unreached(),
        }
    }

    pub fn get_trait(&self, id: TraitId) -> (r: &Trait)
        requires
            alist_get(self.traits.entries@, id) is Some,
        ensures
            Some(*r) == alist_get(self.traits.entries@, id),
    {
        match self.traits.get(&id) {
            Some(t) => t,
            None => vstd::pervasive::unreached(),
        }
    }

    pub fn try_get_trait(&self, id: TraitId) -> (r: Option<&Trait>)
        ensures
            match r {
                Some(t) => alist_get(self.traits.entries@, id) == Some(*t),
                None => alist_get(self.traits.entries@, id) is None,
            },
    {
        self.traits.get(&id)
    }

    /// Replaces a stored trait; the trait must exist. The store hands out
    /// no mutable references, so mutation is a whole-value update.
    pub fn get_trait_mut(&mut self, id: TraitId, new_trait: Trait)
        requires
            alist_get(old(self).traits.entries@, id) is Some,
        ensures
            *final(self) == (NodeInterner { traits: final(self).traits, ..*old(self) }),
            final(self).traits.entries@ == alist_insert(old(self).traits.entries@, id, new_trait),
    {
        self.traits.insert(id, new_trait);
    }

    pub fn get_type_alias(&self, id: TypeAliasId) -> (r: &TypeAliasType)
        requires
            id.0 < self.type_aliases@.len(),
        ensures
            *r == self.type_aliases@[id.0 as int],
    {
        &self.type_aliases[id.0]
    }

    /// The first function whose recorded name is `function_name`, among
    /// the functions that have metadata.
    pub fn find_function(&self, function_name: &String) -> (r: Option<FuncId>)
        requires
            forall|j: int|
                0 <= j < self.func_meta.entries@.len() ==> alist_get(
                    self.function_modifiers.entries@,
                    #[trigger] self.func_meta.entries@[j].0,
                ) is Some,
        ensures
            r == spec_find_function(
                self.func_meta.entries@,
                self.function_modifiers.entries@,
                function_name@,
            ),
    {
        let n = self.func_meta.entries.len();
        let mut i: usize = 0;
        proof {
            assert(self.func_meta.entries@.skip(0) =~= self.func_meta.entries@);
        }
        while i < n
            invariant
                i <= n,
                n == self.func_meta.entries@.len(),
                forall|j: int|
                    0 <= j < self.func_meta.entries@.len() ==> alist_get(
                        self.function_modifiers.entries@,
                        #[trigger] self.func_meta.entries@[j].0,
                    ) is Some,
                spec_find_function(
                    self.func_meta.entries@,
                    self.function_modifiers.entries@,
                    function_name@,
                ) == spec_find_function(
                    self.func_meta.entries@.skip(i as int),
                    self.function_modifiers.entries@,
                    function_name@,
                ),
            decreases n - i,
        {
            proof {
                assert(self.func_meta.entries@.skip(i as int)[0] == self.func_meta.entries@[
                    i as int]);
                assert(self.func_meta.entries@.skip(i as int).drop_first()
                    =~= self.func_meta.entries@.skip(i as int + 1));
                assert(alist_get(
                    self.function_modifiers.entries@,
                    self.func_meta.entries@[i as int].0,
                ) is Some);
            }
            let func_id = self.func_meta.entries[i].0;
            let name = self.function_name(&func_id);
            if *name == *function_name {
                return Some(func_id);
            }
            i = i + 1;
        }
        proof {
            assert(self.func_meta.entries@.skip(n as int).len() == 0);
        }
        None
    }
}

} // verus!

//! Type references and visibilities as the semantic model holds them: free
//! of any position in the source.

use vstd::prelude::*;

verus! {

/// The type that a declaration names, as it was written. `Error` stands
/// where the source names none.
#[derive(Debug)]
pub enum TypeRef {
    Written(String),
    Error,
}

/// A type reference as a value.
pub enum TypeRefView {
    Written(Seq<char>),
    Error,
}

impl View for TypeRef {
    type V = TypeRefView;

    open spec fn view(&self) -> TypeRefView {
        match self {
            TypeRef::Written(s) => TypeRefView::Written(s@),
            TypeRef::Error => TypeRefView::Error,
        }
    }
}

impl Clone for TypeRef {
    fn clone(&self) -> (r: TypeRef)
        ensures
            r@ == self@,
    {
        match self {
            TypeRef::Written(s) => TypeRef::Written(s.clone()),
            TypeRef::Error => TypeRef::Error,
        }
    }
}

impl TypeRef {
    /// The reference for an optional type syntax.
    pub open spec fn spec_from_ast_opt(node: Option<String>) -> TypeRefView {
        match node {
            Some(s) => TypeRefView::Written(s@),
            None => TypeRefView::Error,
        }
    }

    /// The reference for an optional type syntax: the type where one is
    /// written, `Error` where none is.
    pub fn from_ast_opt(node: &Option<String>) -> (r: TypeRef)
        ensures
            r@ == Self::spec_from_ast_opt(*node),
    {
        match node {
            Some(s) => TypeRef::Written(s.clone()),
            None => TypeRef::Error,
        }
    }
}

/// The module that a restricted visibility names.
#[derive(Debug)]
pub enum ModPath {
    /// The crate's root.
    Crate,
    /// The enclosing module, that many levels up; `Super(0)` is the module
    /// of the item itself.
    Super(u8),
    /// A path written out.
    Plain(String),
}

/// A module path as a value.
pub enum ModPathView {
    Crate,
    Super(u8),
    Plain(Seq<char>),
}

impl View for ModPath {
    type V = ModPathView;

    open spec fn view(&self) -> ModPathView {
        match self {
            ModPath::Crate => ModPathView::Crate,
            ModPath::Super(n) => ModPathView::Super(*n),
            ModPath::Plain(s) => ModPathView::Plain(s@),
        }
    }
}

/// How a visibility is written in the source.
#[derive(Debug)]
pub enum VisibilityKind {
    /// `pub(in path)`
    In(String),
    /// `pub(crate)`
    PubCrate,
    /// `pub(super)`
    PubSuper,
    /// `pub`
    Pub,
}

/// A visibility before its module is resolved.
#[derive(Debug)]
pub enum RawVisibility {
    /// Visible inside the given module.
    Module(ModPath),
    /// Visible everywhere.
    Public,
}

/// A visibility as a value.
pub enum RawVisibilityView {
    Module(ModPathView),
    Public,
}

impl View for RawVisibility {
    type V = RawVisibilityView;

    open spec fn view(&self) -> RawVisibilityView {
        match self {
            RawVisibility::Module(m) => RawVisibilityView::Module(m@),
            RawVisibility::Public => RawVisibilityView::Public,
        }
    }
}

impl Clone for RawVisibility {
    fn clone(&self) -> (r: RawVisibility)
        ensures
            r@ == self@,
    {
        match self {
            RawVisibility::Module(ModPath::Crate) => RawVisibility::Module(ModPath::Crate),
            RawVisibility::Module(ModPath::Super(n)) => RawVisibility::Module(ModPath::Super(*n)),
            RawVisibility::Module(ModPath::Plain(s)) => RawVisibility::Module(
                ModPath::Plain(s.clone()),
            ),
            RawVisibility::Public => RawVisibility::Public,
        }
    }
}

impl RawVisibility {
    /// The visibility of an item that writes none: its own module.
    pub open spec fn spec_private() -> RawVisibilityView {
        RawVisibilityView::Module(ModPathView::Super(0))
    }

    /// The visibility of an item that writes none.
    pub fn private() -> (r: RawVisibility)
        ensures
            r@ == Self::spec_private(),
    {
        RawVisibility::Module(ModPath::Super(0))
    }

    /// The visibility that an optional visibility syntax stands for.
    pub open spec fn spec_from_ast(node: Option<VisibilityKind>) -> RawVisibilityView {
        match node {
            None => Self::spec_private(),
            Some(VisibilityKind::In(path)) => RawVisibilityView::Module(ModPathView::Plain(path@)),
            Some(VisibilityKind::PubCrate) => RawVisibilityView::Module(ModPathView::Crate),
            Some(VisibilityKind::PubSuper) => RawVisibilityView::Module(ModPathView::Super(1)),
            Some(VisibilityKind::Pub) => RawVisibilityView::Public,
        }
    }

    /// The visibility that an optional visibility syntax stands for; an
    /// item without one is private to its module.
    pub fn from_ast(node: &Option<VisibilityKind>) -> (r: RawVisibility)
        ensures
            r@ == Self::spec_from_ast(*node),
    {
        match node {
            None => RawVisibility::private(),
            Some(VisibilityKind::In(path)) => RawVisibility::Module(ModPath::Plain(path.clone())),
            Some(VisibilityKind::PubCrate) => RawVisibility::Module(ModPath::Crate),
            Some(VisibilityKind::PubSuper) => RawVisibility::Module(ModPath::Super(1)),
            Some(VisibilityKind::Pub) => RawVisibility::Public,
        }
    }
}

} // verus!

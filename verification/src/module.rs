//! The data that an analysis reads and produces: dependency records and the
//! outline of a parsed module.

use vstd::prelude::*;

verus! {

/// How a dependency was referred to, which tells a resolver how to read its
/// specifier.
#[derive(Clone, Copy, Debug, PartialEq, Eq, Structural)]
pub enum ResolveType {
    Import,
    ExportNamed,
    ExportAll,
    Require,
    DynamicImport,
    Css,
}

/// One discovered dependency: the specifier as written, its 1-based rank of
/// first occurrence, and the mechanism of that first occurrence.
#[derive(Clone, Debug, PartialEq, Eq)]
pub struct Dependency {
    pub source: String,
    pub order: usize,
    pub resolve_type: ResolveType,
}

/// The mathematical value of a `Dependency`.
pub struct DependencyView {
    pub source: Seq<char>,
    pub order: nat,
    pub resolve_type: ResolveType,
}

impl View for Dependency {
    type V = DependencyView;

    open spec fn view(&self) -> DependencyView {
        DependencyView {
            source: self.source@,
            order: self.order as nat,
            resolve_type: self.resolve_type,
        }
    }
}

/// The mathematical value of a list of dependencies.
pub open spec fn dependencies_view(deps: Vec<Dependency>) -> Seq<DependencyView> {
    Seq::new(deps.len() as nat, |i: int| deps[i]@)
}

/// A module-level declaration of a script, as far as it names another module.
#[allow(inconsistent_fields)]
pub enum ModuleDecl {
    /// `import ... from "src"`; `type_only` for an import that exists for
    /// type checking alone.
    Import { src: String, type_only: bool },
    /// `export { ... }`, with `from "src"` where it re-exports.
    ExportNamed { src: Option<String> },
    /// `export * from "src"`.
    ExportAll { src: String },
    /// Any other declaration.
    Other,
}

/// What a call expression calls.
pub enum Callee {
    /// The dynamic-import operator, `import(...)`.
    Import,
    /// A bare identifier, by its name.
    Ident(String),
    /// Anything else.
    Other,
}

/// One argument of a call.
pub enum CallArg {
    /// A string literal, by its value.
    Str(String),
    /// Anything else.
    Other,
}

/// A call expression: what is called, and with which arguments.
pub struct CallExpr {
    pub callee: Callee,
    pub args: Vec<CallArg>,
}

/// What a node of a script tree is.
pub enum ScriptNodeKind {
    ModuleDecl(ModuleDecl),
    CallExpr(CallExpr),
    Other,
}

/// A node of a script tree with its children in source order. For a call
/// expression the children are the callee and the arguments; for a declaration,
/// whatever it contains.
pub struct ScriptNode {
    pub kind: ScriptNodeKind,
    pub children: Vec<ScriptNode>,
}

/// The value of a `url(...)` token: a quoted string or a raw token.
pub enum UrlValue {
    Str(String),
    Raw(String),
}

/// The target of an `@import` rule.
pub enum ImportHref {
    /// `@import url(...)`; the token may carry no value.
    Url(Option<UrlValue>),
    /// `@import "..."`.
    Str(String),
}

/// What a node of a stylesheet tree is.
pub enum CssNodeKind {
    ImportHref(ImportHref),
    /// A `url(...)` reference outside an import rule; the token may carry no
    /// value.
    Url(Option<UrlValue>),
    Other,
}

/// A node of a stylesheet tree with its children in source order.
pub struct CssNode {
    pub kind: CssNodeKind,
    pub children: Vec<CssNode>,
}

/// A parsed module, tagged by its kind. `Asset` stands for every kind that has
/// no dependencies to discover, such as data or a binary file.
pub enum ModuleAst {
    Script(ScriptNode),
    Css(CssNode),
    Asset,
}

} // verus!

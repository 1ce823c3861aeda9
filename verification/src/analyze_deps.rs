//! Discovery of the dependencies of one module.

use vstd::prelude::*;
use crate::module::{
    CallArg, CallExpr, Callee, CssNode, CssNodeKind, Dependency, DependencyView, ImportHref,
    ModuleAst, ModuleDecl, ResolveType, ScriptNode, ScriptNodeKind, UrlValue, dependencies_view,
};

verus! {

/// Whether some record of `deps` has the specifier `source`.
pub open spec fn has_source(deps: Seq<DependencyView>, source: Seq<char>) -> bool {
    exists|i: int| 0 <= i < deps.len() && #[trigger] deps[i].source == source
}

/// The list after a reference to `source` by `resolve_type`: unchanged where
/// `source` is already there, else one record longer, the new record taking the
/// next rank.
pub open spec fn record(deps: Seq<DependencyView>, source: Seq<char>, resolve_type: ResolveType) -> Seq<DependencyView> {
    if has_source(deps, source) {
        deps
    } else {
        deps.push(DependencyView { source, order: deps.len() + 1, resolve_type })
    }
}

/// The ranks of `deps` count up from 1 without a gap.
pub open spec fn ranked(deps: Seq<DependencyView>) -> bool {
    forall|i: int| 0 <= i < deps.len() ==> (#[trigger] deps[i]).order == i + 1
}

/// No two records of `deps` have the same specifier.
pub open spec fn distinct_sources(deps: Seq<DependencyView>) -> bool {
    forall|i: int, j: int|
        0 <= i < j < deps.len() ==> (#[trigger] deps[i]).source != (#[trigger] deps[j]).source
}

/// The list after a node that may hold a reference: `record` where it holds
/// one, unchanged where it holds none.
pub open spec fn record_if(deps: Seq<DependencyView>, reference: Option<(Seq<char>, ResolveType)>) -> Seq<DependencyView> {
    match reference {
        Some((source, resolve_type)) => record(deps, source, resolve_type),
        None => deps,
    }
}

/// The reference that a module declaration holds: an import that is not
/// type-only, a named re-export with a source, or a re-export of everything.
pub open spec fn module_decl_reference(decl: ModuleDecl) -> Option<(Seq<char>, ResolveType)> {
    match decl {
        ModuleDecl::Import { src, type_only } => if type_only {
            None
        } else {
            Some((src@, ResolveType::Import))
        },
        ModuleDecl::ExportNamed { src: Some(src) } => Some((src@, ResolveType::ExportNamed)),
        ModuleDecl::ExportNamed { src: None } => None,
        ModuleDecl::ExportAll { src } => Some((src@, ResolveType::ExportAll)),
        ModuleDecl::Other => None,
    }
}

/// The callee is the bare identifier `require`. Nothing is asked of the scope
/// that the identifier stands in.
pub open spec fn commonjs_require(call: CallExpr) -> bool {
    call.callee matches Callee::Ident(sym) && sym@ == "require"@
}

/// The callee is the dynamic-import operator.
pub open spec fn dynamic_import(call: CallExpr) -> bool {
    call.callee is Import
}

/// The value of the first argument, where there is one and it is a string
/// literal.
pub open spec fn first_arg_str(call: CallExpr) -> Option<Seq<char>> {
    if call.args.len() > 0 {
        match call.args[0] {
            CallArg::Str(value) => Some(value@),
            CallArg::Other => None,
        }
    } else {
        None
    }
}

/// The reference that a call expression holds: a `require` or a dynamic import
/// whose first argument is a string literal.
pub open spec fn call_reference(call: CallExpr) -> Option<(Seq<char>, ResolveType)> {
    if commonjs_require(call) {
        match first_arg_str(call) {
            Some(source) => Some((source, ResolveType::Require)),
            None => None,
        }
    } else if dynamic_import(call) {
        match first_arg_str(call) {
            Some(source) => Some((source, ResolveType::DynamicImport)),
            None => None,
        }
    } else {
        None
    }
}

/// The reference that a script node holds by itself, its children left aside.
pub open spec fn script_reference(kind: ScriptNodeKind) -> Option<(Seq<char>, ResolveType)> {
    match kind {
        ScriptNodeKind::ModuleDecl(decl) => module_decl_reference(decl),
        ScriptNodeKind::CallExpr(call) => call_reference(call),
        ScriptNodeKind::Other => None,
    }
}

/// Whether the walk goes on into the children of a script node: always, but
/// for a call expression that holds a reference.
pub open spec fn script_descends(kind: ScriptNodeKind) -> bool {
    match kind {
        ScriptNodeKind::CallExpr(call) => call_reference(call) is None,
        _ => true,
    }
}

/// The list after the walk of a script node and of all that is below it,
/// begun with `deps`.
pub open spec fn script_deps(deps: Seq<DependencyView>, node: ScriptNode) -> Seq<DependencyView>
    decreases node, node.children.len() + 1,
{
    let own = record_if(deps, script_reference(node.kind));
    if script_descends(node.kind) {
        script_children_deps(own, node, node.children.len() as nat)
    } else {
        own
    }
}

/// The list after the walk of the first `n` children of `node`, begun with
/// `deps`.
pub open spec fn script_children_deps(deps: Seq<DependencyView>, node: ScriptNode, n: nat) -> Seq<DependencyView>
    decreases node, n,
{
    if n == 0 || n > node.children.len() {
        deps
    } else {
        script_deps(script_children_deps(deps, node, (n - 1) as nat), node.children[n - 1])
    }
}

/// The text of a `url(...)` value, quoted or raw.
pub open spec fn url_text(value: UrlValue) -> Seq<char> {
    match value {
        UrlValue::Str(text) => text@,
        UrlValue::Raw(text) => text@,
    }
}

/// The reference that the target of an `@import` rule holds: none only where a
/// `url(...)` target carries no value.
pub open spec fn import_href_reference(href: ImportHref) -> Option<(Seq<char>, ResolveType)> {
    match href {
        ImportHref::Url(Some(value)) => Some((url_text(value), ResolveType::Css)),
        ImportHref::Url(None) => None,
        ImportHref::Str(text) => Some((text@, ResolveType::Css)),
    }
}

/// Every `url(...)` reference that the walk of `node` comes to carries a value.
/// What is below an import target or below a `url(...)` reference is not walked.
pub open spec fn css_well_formed(node: CssNode) -> bool
    decreases node,
{
    match node.kind {
        CssNodeKind::ImportHref(_) => true,
        CssNodeKind::Url(value) => value is Some,
        CssNodeKind::Other => forall|i: int| 0 <= i < node.children.len() ==> css_well_formed(#[trigger] node.children[i]),
    }
}

/// The list after the walk of a stylesheet node and of all that is below it,
/// begun with `deps`.
pub open spec fn css_deps(deps: Seq<DependencyView>, node: CssNode) -> Seq<DependencyView>
    decreases node, node.children.len() + 1,
{
    match node.kind {
        CssNodeKind::ImportHref(href) => record_if(deps, import_href_reference(href)),
        CssNodeKind::Url(Some(value)) => record(deps, url_text(value), ResolveType::Css),
        CssNodeKind::Url(None) => deps,
        CssNodeKind::Other => css_children_deps(deps, node, node.children.len() as nat),
    }
}

/// The list after the walk of the first `n` children of `node`, begun with
/// `deps`.
pub open spec fn css_children_deps(deps: Seq<DependencyView>, node: CssNode, n: nat) -> Seq<DependencyView>
    decreases node, n,
{
    if n == 0 || n > node.children.len() {
        deps
    } else {
        css_deps(css_children_deps(deps, node, (n - 1) as nat), node.children[n - 1])
    }
}

/// A module's tree can be analysed: a stylesheet is `css_well_formed`; of the
/// other kinds nothing is asked.
pub open spec fn analyzable(ast: ModuleAst) -> bool {
    match ast {
        ModuleAst::Css(root) => css_well_formed(root),
        _ => true,
    }
}

/// The dependencies of a module: those of the walk of its tree, begun with
/// nothing; none for a module that is neither script nor stylesheet.
pub open spec fn module_deps(ast: ModuleAst) -> Seq<DependencyView> {
    match ast {
        ModuleAst::Script(root) => script_deps(Seq::empty(), root),
        ModuleAst::Css(root) => css_deps(Seq::empty(), root),
        ModuleAst::Asset => Seq::empty(),
    }
}

/// The state of one analysis: the records made so far, and the specifiers
/// already seen.
pub struct DepCollectVisitor {
    dependencies: Vec<Dependency>,
    dep_strs: Vec<String>,
}

impl View for DepCollectVisitor {
    type V = Seq<DependencyView>;

    closed spec fn view(&self) -> Seq<DependencyView> {
        dependencies_view(self.dependencies)
    }
}

impl DepCollectVisitor {
    /// The specifiers seen are those of the records, in the same order.
    pub closed spec fn seen_matches(&self) -> bool {
        &&& self.dep_strs.len() == self.dependencies.len()
        &&& forall|i: int| 0 <= i < self.dep_strs.len() ==> (#[trigger] self.dep_strs[i])@ == self.dependencies[i].source@
    }

    /// The invariant of a collector: its records are ranked from 1 and pairwise
    /// distinct, and it has seen exactly their specifiers.
    pub open spec fn wf(&self) -> bool {
        &&& self.seen_matches()
        &&& ranked(self@)
        &&& distinct_sources(self@)
    }

    /// A collector that has seen nothing.
    pub fn new() -> (result: Self)
        ensures
            result.wf(),
            result@ == Seq::<DependencyView>::empty(),
    {
        let result = DepCollectVisitor { dependencies: Vec::new(), dep_strs: Vec::new() };
        assert(result@ =~= Seq::<DependencyView>::empty());
        result
    }

    fn seen(&self, source: &String) -> (result: bool)
        requires
            self.wf(),
        ensures
            result == has_source(self@, source@),
    {
        let mut i: usize = 0;
        while i < self.dep_strs.len()
            invariant
                self.wf(),
                i <= self.dep_strs.len(),
                forall|k: int| 0 <= k < i ==> (#[trigger] self@[k]).source != source@,
            decreases self.dep_strs.len() - i,
        {
            if self.dep_strs[i] == *source {
                assert(self@[i as int].source == source@);
                return true;
            }
            i += 1;
        }
        false
    }

    /// Records a reference to `source` by `resolve_type`, unless `source` was
    /// recorded before.
    pub fn bind_dependency(&mut self, source: String, resolve_type: ResolveType)
        requires
            old(self).wf(),
        ensures
            final(self).wf(),
            final(self)@ == record(old(self)@, source@, resolve_type),
    {
        if !self.seen(&source) {
            let ghost before = self@;
            self.dep_strs.push(source.clone());
            let order: usize = self.dep_strs.len();
            self.dependencies.push(Dependency { source, order, resolve_type });
            assert(self@ =~= before.push(DependencyView { source: source@, order: before.len() + 1, resolve_type }));
        }
    }

    /// Records what a module declaration refers to, if anything.
    pub fn visit_module_decl(&mut self, n: &ModuleDecl)
        requires
            old(self).wf(),
        ensures
            final(self).wf(),
            final(self)@ == record_if(old(self)@, module_decl_reference(*n)),
    {
        match n {
            ModuleDecl::Import { src, type_only } => {
                if !*type_only {
                    self.bind_dependency(src.clone(), ResolveType::Import);
                }
            },
            ModuleDecl::ExportNamed { src } => {
                if let Some(src) = src {
                    self.bind_dependency(src.clone(), ResolveType::ExportNamed);
                }
            },
            ModuleDecl::ExportAll { src } => {
                self.bind_dependency(src.clone(), ResolveType::ExportAll);
            },
            ModuleDecl::Other => {},
        }
    }

    /// Records what a call expression refers to, if anything, and says whether
    /// the walk goes on into its children: it does unless a record was due.
    pub fn visit_call_expr(&mut self, expr: &CallExpr) -> (descend: bool)
        requires
            old(self).wf(),
        ensures
            final(self).wf(),
            final(self)@ == record_if(old(self)@, call_reference(*expr)),
            descend == (call_reference(*expr) is None),
    {
        if is_commonjs_require(expr) {
            if let Some(src) = get_first_arg_str(expr) {
                self.bind_dependency(src, ResolveType::Require);
                return false;
            }
        } else if is_dynamic_import(expr) {
            if let Some(src) = get_first_arg_str(expr) {
                self.bind_dependency(src, ResolveType::DynamicImport);
                return false;
            }
        }
        true
    }

    /// Walks a script node and all that is below it.
    pub fn visit_script_node(&mut self, node: &ScriptNode)
        requires
            old(self).wf(),
        ensures
            final(self).wf(),
            final(self)@ == script_deps(old(self)@, *node),
        decreases node,
    {
        let descend = match &node.kind {
            ScriptNodeKind::ModuleDecl(decl) => {
                self.visit_module_decl(decl);
                true
            },
            ScriptNodeKind::CallExpr(expr) => self.visit_call_expr(expr),
            ScriptNodeKind::Other => true,
        };
        if descend {
            let ghost own = self@;
            let mut i: usize = 0;
            while i < node.children.len()
                invariant
                    self.wf(),
                    i <= node.children.len(),
                    self@ == script_children_deps(own, *node, i as nat),
                decreases node.children.len() - i,
            {
                self.visit_script_node(&node.children[i]);
                i += 1;
            }
        }
    }

    /// Records the target of an `@import` rule, unless it is a `url(...)` token
    /// without a value.
    pub fn visit_import_href(&mut self, n: &ImportHref)
        requires
            old(self).wf(),
        ensures
            final(self).wf(),
            final(self)@ == record_if(old(self)@, import_href_reference(*n)),
    {
        match n {
            ImportHref::Url(value) => {
                if let Some(value) = value {
                    self.bind_dependency(url_value_text(value), ResolveType::Css);
                }
            },
            ImportHref::Str(src) => {
                self.bind_dependency(src.clone(), ResolveType::Css);
            },
        }
    }

    /// Records a `url(...)` reference. The token must carry a value: one
    /// without comes from a tree that no parser should hand out.
    pub fn visit_url(&mut self, value: &Option<UrlValue>)
        requires
            old(self).wf(),
            value is Some,
        ensures
            final(self).wf(),
            final(self)@ == record(old(self)@, url_text(value->Some_0), ResolveType::Css),
    {
        if let Some(value) = value {
            self.bind_dependency(url_value_text(value), ResolveType::Css);
        }
    }

    /// Walks a stylesheet node and all that is below it.
    pub fn visit_css_node(&mut self, node: &CssNode)
        requires
            old(self).wf(),
            css_well_formed(*node),
        ensures
            final(self).wf(),
            final(self)@ == css_deps(old(self)@, *node),
        decreases node,
    {
        match &node.kind {
            CssNodeKind::ImportHref(href) => self.visit_import_href(href),
            CssNodeKind::Url(value) => self.visit_url(value),
            CssNodeKind::Other => {
                let ghost before = self@;
                let mut i: usize = 0;
                while i < node.children.len()
                    invariant
                        self.wf(),
                        css_well_formed(*node),
                        node.kind is Other,
                        i <= node.children.len(),
                        self@ == css_children_deps(before, *node, i as nat),
                    decreases node.children.len() - i,
                {
                    self.visit_css_node(&node.children[i]);
                    i += 1;
                }
            },
        }
    }

    /// Ends the analysis and hands out the records, in order of first
    /// occurrence.
    pub fn finish(self) -> (result: Vec<Dependency>)
        requires
            self.wf(),
        ensures
            dependencies_view(result) == self@,
    {
        self.dependencies
    }
}

fn url_value_text(value: &UrlValue) -> (text: String)
    ensures
        text@ == url_text(*value),
{
    match value {
        UrlValue::Str(text) => text.clone(),
        UrlValue::Raw(text) => text.clone(),
    }
}

/// Whether a call expression calls the dynamic-import operator.
pub fn is_dynamic_import(call_expr: &CallExpr) -> (result: bool)
    ensures
        result == dynamic_import(*call_expr),
{
    matches!(&call_expr.callee, Callee::Import)
}

/// Whether a call expression calls the bare identifier `require`.
pub fn is_commonjs_require(call_expr: &CallExpr) -> (result: bool)
    ensures
        result == commonjs_require(*call_expr),
{
    if let Callee::Ident(sym) = &call_expr.callee {
        let name = "require".to_owned();
        *sym == name
    } else {
        false
    }
}

/// The value of the first argument of a call, where it is a string literal.
pub fn get_first_arg_str(call_expr: &CallExpr) -> (result: Option<String>)
    ensures
        match result {
            Some(text) => first_arg_str(*call_expr) == Some(text@),
            None => first_arg_str(*call_expr) is None,
        },
{
    if call_expr.args.len() > 0 {
        if let CallArg::Str(value) = &call_expr.args[0] {
            return Some(value.clone());
        }
    }
    None
}

/// The dependencies of a script, from its tree.
pub fn analyze_deps_js(ast: &ScriptNode) -> (result: Vec<Dependency>)
    ensures
        dependencies_view(result) == script_deps(Seq::empty(), *ast),
        ranked(dependencies_view(result)),
        distinct_sources(dependencies_view(result)),
{
    let mut visitor = DepCollectVisitor::new();
    visitor.visit_script_node(ast);
    visitor.finish()
}

/// The dependencies of a stylesheet, from its tree.
pub fn analyze_deps_css(ast: &CssNode) -> (result: Vec<Dependency>)
    requires
        css_well_formed(*ast),
    ensures
        dependencies_view(result) == css_deps(Seq::empty(), *ast),
        ranked(dependencies_view(result)),
        distinct_sources(dependencies_view(result)),
{
    let mut visitor = DepCollectVisitor::new();
    visitor.visit_css_node(ast);
    visitor.finish()
}

/// The dependencies of a module, in order of first occurrence: those of its
/// script or stylesheet tree, and none for any other kind of module.
pub fn analyze_deps(ast: &ModuleAst) -> (result: Vec<Dependency>)
    requires
        analyzable(*ast),
    ensures
        dependencies_view(result) == module_deps(*ast),
        ranked(dependencies_view(result)),
        distinct_sources(dependencies_view(result)),
{
    match ast {
        ModuleAst::Script(ast) => analyze_deps_js(ast),
        ModuleAst::Css(ast) => analyze_deps_css(ast),
        _ => {
            let result: Vec<Dependency> = Vec::new();
            assert(dependencies_view(result) =~= Seq::<DependencyView>::empty());
            result
        },
    }
}

/// Whether every `url(...)` reference that the walk of `node` comes to carries
/// a value.
pub fn css_is_well_formed(node: &CssNode) -> (result: bool)
    ensures
        result == css_well_formed(*node),
    decreases node,
{
    match &node.kind {
        CssNodeKind::ImportHref(_) => true,
        CssNodeKind::Url(value) => value.is_some(),
        CssNodeKind::Other => {
            let mut i: usize = 0;
            while i < node.children.len()
                invariant
                    node.kind is Other,
                    i <= node.children.len(),
                    forall|k: int| 0 <= k < i ==> css_well_formed(#[trigger] node.children[k]),
                decreases node.children.len() - i,
            {
                if !css_is_well_formed(&node.children[i]) {
                    return false;
                }
                i += 1;
            }
            true
        },
    }
}

/// Whether a module's tree can be analysed.
pub fn is_analyzable(ast: &ModuleAst) -> (result: bool)
    ensures
        result == analyzable(*ast),
{
    match ast {
        ModuleAst::Css(root) => css_is_well_formed(root),
        _ => true,
    }
}

/// The dependencies of a module, or `None` for a tree that cannot be analysed:
/// a stylesheet in which the walk comes to a `url(...)` reference without a
/// value. No list is made up from such a tree.
pub fn try_analyze_deps(ast: &ModuleAst) -> (result: Option<Vec<Dependency>>)
    ensures
        result is Some == analyzable(*ast),
        result matches Some(deps) ==> {
            &&& dependencies_view(deps) == module_deps(*ast)
            &&& ranked(dependencies_view(deps))
            &&& distinct_sources(dependencies_view(deps))
        },
{
    if is_analyzable(ast) {
        Some(analyze_deps(ast))
    } else {
        None
    }
}

/// `front` is how `whole` begins: every record of `front` stands unchanged at
/// the same place in `whole`.
pub open spec fn begins_with(whole: Seq<DependencyView>, front: Seq<DependencyView>) -> bool {
    &&& front.len() <= whole.len()
    &&& forall|i: int| 0 <= i < front.len() ==> whole[i] == front[i]
}

/// A reference keeps a ranked list ranked and a list of distinct specifiers
/// distinct, and leaves every earlier record where it was.
pub proof fn lemma_record_keeps_order(deps: Seq<DependencyView>, source: Seq<char>, resolve_type: ResolveType)
    requires
        ranked(deps),
        distinct_sources(deps),
    ensures
        ranked(record(deps, source, resolve_type)),
        distinct_sources(record(deps, source, resolve_type)),
        begins_with(record(deps, source, resolve_type), deps),
        has_source(record(deps, source, resolve_type), source),
{
    let after = record(deps, source, resolve_type);
    if !has_source(deps, source) {
        assert(after[deps.len() as int].source == source);
    }
}

/// The first occurrence wins: a second reference to the same specifier, by
/// whatever mechanism, changes nothing.
pub proof fn lemma_record_first_wins(deps: Seq<DependencyView>, source: Seq<char>, first: ResolveType, second: ResolveType)
    ensures
        record(record(deps, source, first), source, second) == record(deps, source, first),
{
    let after = record(deps, source, first);
    if !has_source(deps, source) {
        assert(after[deps.len() as int].source == source);
    }
}

/// Two references to one specifier, made of nothing, leave exactly one record:
/// the specifier at rank 1 with the mechanism of the first reference.
pub proof fn lemma_same_specifier_twice(source: Seq<char>, first: ResolveType, second: ResolveType)
    ensures
        record(record(Seq::empty(), source, first), source, second) == seq![
            DependencyView { source, order: 1, resolve_type: first },
        ],
{
    lemma_record_first_wins(Seq::empty(), source, first, second);
    assert(record(Seq::empty(), source, first) =~= seq![
        DependencyView { source, order: 1, resolve_type: first },
    ]);
}

/// The walk of a script node only adds: the list it began with is how the
/// list it ends with begins.
pub proof fn lemma_script_deps_begins_with(deps: Seq<DependencyView>, node: ScriptNode)
    ensures
        begins_with(script_deps(deps, node), deps),
    decreases node, node.children.len() + 1,
{
    let own = record_if(deps, script_reference(node.kind));
    if script_descends(node.kind) {
        lemma_script_children_deps_begins_with(own, node, node.children.len() as nat);
    }
}

/// The walk of the first `n` children of a script node only adds.
pub proof fn lemma_script_children_deps_begins_with(deps: Seq<DependencyView>, node: ScriptNode, n: nat)
    ensures
        begins_with(script_children_deps(deps, node, n), deps),
    decreases node, n,
{
    if !(n == 0 || n > node.children.len()) {
        let before = script_children_deps(deps, node, (n - 1) as nat);
        lemma_script_children_deps_begins_with(deps, node, (n - 1) as nat);
        lemma_script_deps_begins_with(before, node.children[n - 1]);
    }
}

/// The walk of a stylesheet node only adds.
pub proof fn lemma_css_deps_begins_with(deps: Seq<DependencyView>, node: CssNode)
    ensures
        begins_with(css_deps(deps, node), deps),
    decreases node, node.children.len() + 1,
{
    if node.kind is Other {
        lemma_css_children_deps_begins_with(deps, node, node.children.len() as nat);
    }
}

/// The walk of the first `n` children of a stylesheet node only adds.
pub proof fn lemma_css_children_deps_begins_with(deps: Seq<DependencyView>, node: CssNode, n: nat)
    ensures
        begins_with(css_children_deps(deps, node, n), deps),
    decreases node, n,
{
    if !(n == 0 || n > node.children.len()) {
        let before = css_children_deps(deps, node, (n - 1) as nat);
        lemma_css_children_deps_begins_with(deps, node, (n - 1) as nat);
        lemma_css_deps_begins_with(before, node.children[n - 1]);
    }
}

/// The walk of a script node keeps a ranked list ranked and a list of distinct
/// specifiers distinct.
pub proof fn lemma_script_deps_keeps_order(deps: Seq<DependencyView>, node: ScriptNode)
    requires
        ranked(deps),
        distinct_sources(deps),
    ensures
        ranked(script_deps(deps, node)),
        distinct_sources(script_deps(deps, node)),
    decreases node, node.children.len() + 1,
{
    let own = record_if(deps, script_reference(node.kind));
    if let Some((source, resolve_type)) = script_reference(node.kind) {
        lemma_record_keeps_order(deps, source, resolve_type);
    }
    if script_descends(node.kind) {
        lemma_script_children_deps_keeps_order(own, node, node.children.len() as nat);
    }
}

/// The walk of the first `n` children of a script node keeps a ranked list
/// ranked and a list of distinct specifiers distinct.
pub proof fn lemma_script_children_deps_keeps_order(deps: Seq<DependencyView>, node: ScriptNode, n: nat)
    requires
        ranked(deps),
        distinct_sources(deps),
    ensures
        ranked(script_children_deps(deps, node, n)),
        distinct_sources(script_children_deps(deps, node, n)),
    decreases node, n,
{
    if !(n == 0 || n > node.children.len()) {
        let before = script_children_deps(deps, node, (n - 1) as nat);
        lemma_script_children_deps_keeps_order(deps, node, (n - 1) as nat);
        lemma_script_deps_keeps_order(before, node.children[n - 1]);
    }
}

/// The walk of a stylesheet node keeps a ranked list ranked and a list of
/// distinct specifiers distinct.
pub proof fn lemma_css_deps_keeps_order(deps: Seq<DependencyView>, node: CssNode)
    requires
        ranked(deps),
        distinct_sources(deps),
    ensures
        ranked(css_deps(deps, node)),
        distinct_sources(css_deps(deps, node)),
    decreases node, node.children.len() + 1,
{
    match node.kind {
        CssNodeKind::ImportHref(href) => {
            if let Some((source, resolve_type)) = import_href_reference(href) {
                lemma_record_keeps_order(deps, source, resolve_type);
            }
        },
        CssNodeKind::Url(Some(value)) => {
            lemma_record_keeps_order(deps, url_text(value), ResolveType::Css);
        },
        CssNodeKind::Url(None) => {},
        CssNodeKind::Other => {
            lemma_css_children_deps_keeps_order(deps, node, node.children.len() as nat);
        },
    }
}

/// The walk of the first `n` children of a stylesheet node keeps a ranked list
/// ranked and a list of distinct specifiers distinct.
pub proof fn lemma_css_children_deps_keeps_order(deps: Seq<DependencyView>, node: CssNode, n: nat)
    requires
        ranked(deps),
        distinct_sources(deps),
    ensures
        ranked(css_children_deps(deps, node, n)),
        distinct_sources(css_children_deps(deps, node, n)),
    decreases node, n,
{
    if !(n == 0 || n > node.children.len()) {
        let before = css_children_deps(deps, node, (n - 1) as nat);
        lemma_css_children_deps_keeps_order(deps, node, (n - 1) as nat);
        lemma_css_deps_keeps_order(before, node.children[n - 1]);
    }
}

/// The dependencies of any module are ranked from 1 without a gap, and no
/// specifier occurs twice among them.
pub proof fn lemma_module_deps_ordered(ast: ModuleAst)
    ensures
        ranked(module_deps(ast)),
        distinct_sources(module_deps(ast)),
{
    match ast {
        ModuleAst::Script(root) => lemma_script_deps_keeps_order(Seq::empty(), root),
        ModuleAst::Css(root) => lemma_css_deps_keeps_order(Seq::empty(), root),
        ModuleAst::Asset => {},
    }
}

/// Type-only imports alone give nothing: a script whose top-level nodes are
/// all type-only imports, with nothing below them, has no dependencies.
pub proof fn lemma_type_only_imports_alone(root: ScriptNode)
    requires
        root.kind is Other,
        forall|i: int| 0 <= i < root.children.len() ==> type_only_import(#[trigger] root.children[i]),
    ensures
        module_deps(ModuleAst::Script(root)) == Seq::<DependencyView>::empty(),
{
    lemma_type_only_children(root, root.children.len() as nat);
}

/// A node that is a type-only import with nothing below it.
pub open spec fn type_only_import(node: ScriptNode) -> bool {
    &&& node.kind matches ScriptNodeKind::ModuleDecl(ModuleDecl::Import { type_only, .. }) && type_only
    &&& node.children.len() == 0
}

proof fn lemma_type_only_children(root: ScriptNode, n: nat)
    requires
        forall|i: int| 0 <= i < root.children.len() ==> type_only_import(#[trigger] root.children[i]),
    ensures
        script_children_deps(Seq::empty(), root, n) == Seq::<DependencyView>::empty(),
    decreases n,
{
    if !(n == 0 || n > root.children.len()) {
        lemma_type_only_children(root, (n - 1) as nat);
        let child = root.children[n - 1];
        let nothing = Seq::<DependencyView>::empty();
        assert(type_only_import(child));
        assert(script_children_deps(nothing, child, 0) == nothing);
        assert(script_deps(nothing, child) == nothing);
    }
}

/// A specifier that is in a list is in every list that begins with it.
pub proof fn lemma_has_source_stays(whole: Seq<DependencyView>, front: Seq<DependencyView>, source: Seq<char>)
    requires
        begins_with(whole, front),
        has_source(front, source),
    ensures
        has_source(whole, source),
{
    let i = choose|i: int| 0 <= i < front.len() && #[trigger] front[i].source == source;
    assert(whole[i].source == source);
}

/// The walk of more children of a script node only adds to the walk of fewer.
pub proof fn lemma_script_children_deps_grow(deps: Seq<DependencyView>, node: ScriptNode, k: nat, n: nat)
    requires
        k <= n <= node.children.len(),
    ensures
        begins_with(script_children_deps(deps, node, n), script_children_deps(deps, node, k)),
    decreases n,
{
    if k < n {
        let before = script_children_deps(deps, node, (n - 1) as nat);
        lemma_script_children_deps_grow(deps, node, k, (n - 1) as nat);
        lemma_script_deps_begins_with(before, node.children[n - 1]);
    }
}

/// The walk of more children of a stylesheet node only adds to the walk of
/// fewer.
pub proof fn lemma_css_children_deps_grow(deps: Seq<DependencyView>, node: CssNode, k: nat, n: nat)
    requires
        k <= n <= node.children.len(),
    ensures
        begins_with(css_children_deps(deps, node, n), css_children_deps(deps, node, k)),
    decreases n,
{
    if k < n {
        let before = css_children_deps(deps, node, (n - 1) as nat);
        lemma_css_children_deps_grow(deps, node, k, (n - 1) as nat);
        lemma_css_deps_begins_with(before, node.children[n - 1]);
    }
}

/// The walk of `node` comes to the node that `path` leads to. A path gives, from
/// `node` down, the index of the child to go to; the walk comes to a node when
/// it goes on into the children of every node above it.
pub open spec fn script_walk_reaches(node: ScriptNode, path: Seq<int>) -> bool
    decreases path.len(),
{
    path.len() == 0 || {
        &&& script_descends(node.kind)
        &&& 0 <= path[0] < node.children.len()
        &&& script_walk_reaches(node.children[path[0]], path.drop_first())
    }
}

/// The node that `path` leads to from `node`.
pub open spec fn script_node_at(node: ScriptNode, path: Seq<int>) -> ScriptNode
    decreases path.len(),
{
    if path.len() == 0 {
        node
    } else {
        script_node_at(node.children[path[0]], path.drop_first())
    }
}

/// Nothing that the walk comes to is missed, however deep it stands: where
/// the walk of `node` comes to a node that holds a reference, the specifier of
/// that reference is in the list that the walk ends with.
pub proof fn lemma_script_reference_is_found(deps: Seq<DependencyView>, node: ScriptNode, path: Seq<int>)
    requires
        script_walk_reaches(node, path),
        script_reference(script_node_at(node, path).kind) is Some,
    ensures
        has_source(
            script_deps(deps, node),
            script_reference(script_node_at(node, path).kind)->Some_0.0,
        ),
    decreases path.len(),
{
    let source = script_reference(script_node_at(node, path).kind)->Some_0.0;
    let own = record_if(deps, script_reference(node.kind));
    let n = node.children.len() as nat;
    if path.len() == 0 {
        let resolve_type = script_reference(node.kind)->Some_0.1;
        if !has_source(deps, source) {
            assert(own[deps.len() as int].source == source);
        }
        assert(has_source(own, source));
        if script_descends(node.kind) {
            lemma_script_children_deps_begins_with(own, node, n);
            lemma_has_source_stays(script_children_deps(own, node, n), own, source);
        }
    } else {
        let i = path[0] as nat;
        let before = script_children_deps(own, node, i);
        lemma_script_reference_is_found(before, node.children[i as int], path.drop_first());
        assert(script_children_deps(own, node, i + 1) == script_deps(before, node.children[i as int]));
        lemma_script_children_deps_grow(own, node, i + 1, n);
        lemma_has_source_stays(
            script_children_deps(own, node, n),
            script_children_deps(own, node, i + 1),
            source,
        );
    }
}

/// The walk of `node` comes to the node that `path` leads to: every node above
/// it is neither an import target nor a `url(...)` reference.
pub open spec fn css_walk_reaches(node: CssNode, path: Seq<int>) -> bool
    decreases path.len(),
{
    path.len() == 0 || {
        &&& node.kind is Other
        &&& 0 <= path[0] < node.children.len()
        &&& css_walk_reaches(node.children[path[0]], path.drop_first())
    }
}

/// The node that `path` leads to from `node`.
pub open spec fn css_node_at(node: CssNode, path: Seq<int>) -> CssNode
    decreases path.len(),
{
    if path.len() == 0 {
        node
    } else {
        css_node_at(node.children[path[0]], path.drop_first())
    }
}

/// The reference that a stylesheet node holds by itself.
pub open spec fn css_reference(kind: CssNodeKind) -> Option<(Seq<char>, ResolveType)> {
    match kind {
        CssNodeKind::ImportHref(href) => import_href_reference(href),
        CssNodeKind::Url(Some(value)) => Some((url_text(value), ResolveType::Css)),
        CssNodeKind::Url(None) => None,
        CssNodeKind::Other => None,
    }
}

/// Nothing that the walk of a stylesheet comes to is missed: where the walk
/// of `node` comes to a node that holds a reference, the specifier of that
/// reference is in the list that the walk ends with.
pub proof fn lemma_css_reference_is_found(deps: Seq<DependencyView>, node: CssNode, path: Seq<int>)
    requires
        css_walk_reaches(node, path),
        css_reference(css_node_at(node, path).kind) is Some,
    ensures
        has_source(css_deps(deps, node), css_reference(css_node_at(node, path).kind)->Some_0.0),
    decreases path.len(),
{
    let source = css_reference(css_node_at(node, path).kind)->Some_0.0;
    let n = node.children.len() as nat;
    if path.len() == 0 {
        let after = record(deps, source, ResolveType::Css);
        if !has_source(deps, source) {
            assert(after[deps.len() as int].source == source);
        }
    } else {
        let i = path[0] as nat;
        let before = css_children_deps(deps, node, i);
        lemma_css_reference_is_found(before, node.children[i as int], path.drop_first());
        assert(css_children_deps(deps, node, i + 1) == css_deps(before, node.children[i as int]));
        lemma_css_children_deps_grow(deps, node, i + 1, n);
        lemma_has_source_stays(
            css_children_deps(deps, node, n),
            css_children_deps(deps, node, i + 1),
            source,
        );
    }
}

} // verus!

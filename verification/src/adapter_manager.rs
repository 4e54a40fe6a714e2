//! The unified adapter interfaces, which users implement for their
//! platforms, and the manager that registers at most one export adapter
//! and one import adapter per target.
use vstd::prelude::*;
use crate::adapters::{AdapterConfig, AdapterMetadata};
use crate::config::{entries_map, lemma_lookup_absent, lemma_lookup_first, lemma_lookup_push, lookup};
use crate::error::GaiaError;
use crate::instruction::GaiaInstruction;
use crate::program::GaiaModule;
use crate::target::{copy_target, same_target, CompilationTarget, TargetView};
use crate::text::owned;
use crate::debug_text::{target_debug, target_debug_text};

verus! {

/// An adapter that exports instructions and programs to a platform's format.
pub trait ExportAdapter {
    /// What the adapter is.
    fn metadata(&self) -> &AdapterMetadata;

    /// Applies a configuration.
    fn configure(&mut self, config: AdapterConfig) -> Result<(), GaiaError>;

    /// The platform data of one instruction.
    fn export_instruction(&self, instruction: &GaiaInstruction) -> Result<Vec<u8>, GaiaError>;

    /// The platform data of a program.
    fn export_program(&self, program: &GaiaModule) -> Result<Vec<u8>, GaiaError>;

    /// Whether the adapter takes an instruction.
    fn supports_instruction(&self, instruction: &GaiaInstruction) -> bool;

    /// The extension of the files it writes.
    fn file_extension(&self) -> &str;

    /// Releases what the adapter holds.
    fn cleanup(&mut self) -> Result<(), GaiaError>;
}

/// An adapter that imports instructions and programs from a platform's format.
pub trait ImportAdapter {
    /// What the adapter is.
    fn metadata(&self) -> &AdapterMetadata;

    /// Applies a configuration.
    fn configure(&mut self, config: AdapterConfig) -> Result<(), GaiaError>;

    /// The instruction that platform data stands for.
    fn import_instruction(&self, data: &[u8]) -> Result<GaiaInstruction, GaiaError>;

    /// The program that platform data stands for.
    fn import_program(&self, data: &[u8]) -> Result<GaiaModule, GaiaError>;

    /// Whether data is in the platform's format.
    fn validate_format(&self, data: &[u8]) -> bool;

    /// The extensions of the files it reads.
    fn supported_extensions(&self) -> Vec<&'static str>;

    /// Releases what the adapter holds.
    fn cleanup(&mut self) -> Result<(), GaiaError>;
}

/// The error of an adapter registry about a target.
pub open spec fn registry_error(e: GaiaError, t: TargetView, message: Seq<char>) -> bool {
    e matches GaiaError::AdapterError { adapter, message: m, source } && adapter@ == target_debug(t) && m@ == message
        && source is None
}

fn adapter_error(t: &CompilationTarget, message: &str) -> (e: GaiaError)
    ensures
        registry_error(e, t@, message@),
{
    GaiaError::AdapterError { adapter: target_debug_text(t), message: owned(message), source: None }
}

pub open spec fn target_views<A: ?Sized>(v: Seq<(CompilationTarget, Box<A>)>) -> Seq<(TargetView, Box<A>)> {
    v.map_values(|p: (CompilationTarget, Box<A>)| (p.0@, p.1))
}

/// Export and import adapters by target, at most one of each per target.
/// An adapter type may be a trait object (`dyn ExportAdapter`).
pub struct AdapterManager<E: ?Sized, I: ?Sized> {
    export_adapters: Vec<(CompilationTarget, Box<E>)>,
    import_adapters: Vec<(CompilationTarget, Box<I>)>,
}

/// The position of a target among entries.
fn position<A: ?Sized>(v: &Vec<(CompilationTarget, Box<A>)>, t: &CompilationTarget) -> (r: Option<usize>)
    ensures
        match r {
            Some(i) => i < v@.len() && v@[i as int].0@ == t@ && forall|j: int|
                0 <= j < i ==> (#[trigger] target_views(v@)[j]).0 != t@,
            None => forall|j: int| 0 <= j < v@.len() ==> (#[trigger] target_views(v@)[j]).0 != t@,
        },
{
    let mut i: usize = 0;
    while i < v.len()
        invariant
            i <= v@.len(),
            forall|j: int| 0 <= j < i ==> (#[trigger] target_views(v@)[j]).0 != t@,
        decreases v.len() - i,
    {
        if same_target(&v[i].0, t) {
            return Some(i);
        }
        i = i + 1;
    }
    None
}

impl<E: ?Sized, I: ?Sized> AdapterManager<E, I> {
    /// The export adapters by target.
    pub closed spec fn exports(self) -> Map<TargetView, Box<E>> {
        entries_map(target_views(self.export_adapters@))
    }

    /// The import adapters by target.
    pub closed spec fn imports(self) -> Map<TargetView, Box<I>> {
        entries_map(target_views(self.import_adapters@))
    }

    /// The targets of export adapters, in the order they were registered.
    pub closed spec fn export_order(self) -> Seq<TargetView> {
        self.export_adapters@.map_values(|p: (CompilationTarget, Box<E>)| p.0@)
    }

    /// The targets of import adapters, in the order they were registered.
    pub closed spec fn import_order(self) -> Seq<TargetView> {
        self.import_adapters@.map_values(|p: (CompilationTarget, Box<I>)| p.0@)
    }

    /// No adapter.
    pub fn new() -> (r: Self)
        ensures
            r.exports() == Map::<TargetView, Box<E>>::empty(),
            r.imports() == Map::<TargetView, Box<I>>::empty(),
            r.export_order() == Seq::<TargetView>::empty(),
            r.import_order() == Seq::<TargetView>::empty(),
    {
        let r = AdapterManager { export_adapters: Vec::new(), import_adapters: Vec::new() };
        assert(target_views(r.export_adapters@) =~= seq![]);
        assert(target_views(r.import_adapters@) =~= seq![]);
        assert(r.exports() =~= Map::<TargetView, Box<E>>::empty());
        assert(r.imports() =~= Map::<TargetView, Box<I>>::empty());
        assert(r.export_order() =~= Seq::<TargetView>::empty());
        assert(r.import_order() =~= Seq::<TargetView>::empty());
        r
    }

    /// Registers an export adapter for a target that has none; a target
    /// that has one is refused with "导出适配器已存在" and nothing changes.
    pub fn register_export_adapter(&mut self, target: CompilationTarget, adapter: Box<E>) -> (r: Result<(), GaiaError>)
        ensures
            old(self).exports().dom().contains(target@) ==> (r matches Err(e) && registry_error(
                e,
                target@,
                "导出适配器已存在"@,
            )) && *final(self) == *old(self),
            !old(self).exports().dom().contains(target@) ==> r is Ok && final(self).exports() == old(
                self,
            ).exports().insert(target@, adapter) && final(self).export_order() == old(self).export_order().push(
                target@,
            ),
            final(self).imports() == old(self).imports(),
            final(self).import_order() == old(self).import_order(),
    {
        let ghost before = target_views(self.export_adapters@);
        match position(&self.export_adapters, &target) {
            Some(i) => {
                proof {
                    lemma_lookup_first(before, i as int);
                }
                Err(adapter_error(&target, "导出适配器已存在"))
            },
            None => {
                proof {
                    lemma_lookup_absent(before, target@);
                }
                let ghost k = target@;
                let ghost b = adapter;
                self.export_adapters.push((target, adapter));
                proof {
                    assert(target_views(self.export_adapters@) =~= before.push((k, b)));
                    assert forall|k2: TargetView| #![auto]
                        lookup(target_views(self.export_adapters@), k2) == (if k2 == k {
                            Some(b)
                        } else {
                            lookup(before, k2)
                        }) by {
                        lemma_lookup_push(before, k, b, k2);
                    }
                    assert(self.exports() =~= old(self).exports().insert(k, b));
                    assert(self.export_order() =~= old(self).export_order().push(k));
                }
                Ok(())
            },
        }
    }

    /// Registers an import adapter for a target that has none; a target
    /// that has one is refused with "导入适配器已存在" and nothing changes.
    pub fn register_import_adapter(&mut self, target: CompilationTarget, adapter: Box<I>) -> (r: Result<(), GaiaError>)
        ensures
            old(self).imports().dom().contains(target@) ==> (r matches Err(e) && registry_error(
                e,
                target@,
                "导入适配器已存在"@,
            )) && *final(self) == *old(self),
            !old(self).imports().dom().contains(target@) ==> r is Ok && final(self).imports() == old(
                self,
            ).imports().insert(target@, adapter) && final(self).import_order() == old(self).import_order().push(
                target@,
            ),
            final(self).exports() == old(self).exports(),
            final(self).export_order() == old(self).export_order(),
    {
        let ghost before = target_views(self.import_adapters@);
        match position(&self.import_adapters, &target) {
            Some(i) => {
                proof {
                    lemma_lookup_first(before, i as int);
                }
                Err(adapter_error(&target, "导入适配器已存在"))
            },
            None => {
                proof {
                    lemma_lookup_absent(before, target@);
                }
                let ghost k = target@;
                let ghost b = adapter;
                self.import_adapters.push((target, adapter));
                proof {
                    assert(target_views(self.import_adapters@) =~= before.push((k, b)));
                    assert forall|k2: TargetView| #![auto]
                        lookup(target_views(self.import_adapters@), k2) == (if k2 == k {
                            Some(b)
                        } else {
                            lookup(before, k2)
                        }) by {
                        lemma_lookup_push(before, k, b, k2);
                    }
                    assert(self.imports() =~= old(self).imports().insert(k, b));
                    assert(self.import_order() =~= old(self).import_order().push(k));
                }
                Ok(())
            },
        }
    }

    /// The export adapter of a target, or "导出适配器未找到".
    pub fn get_export_adapter(&self, target: &CompilationTarget) -> (r: Result<&E, GaiaError>)
        ensures
            self.exports().dom().contains(target@) ==> (r matches Ok(a) && a == &*self.exports()[target@]),
            !self.exports().dom().contains(target@) ==> (r matches Err(e) && registry_error(
                e,
                target@,
                "导出适配器未找到"@,
            )),
    {
        let ghost views = target_views(self.export_adapters@);
        match position(&self.export_adapters, target) {
            Some(i) => {
                proof {
                    lemma_lookup_first(views, i as int);
                }
                Ok(&*self.export_adapters[i].1)
            },
            None => {
                proof {
                    lemma_lookup_absent(views, target@);
                }
                Err(adapter_error(target, "导出适配器未找到"))
            },
        }
    }

    /// The import adapter of a target, or "导入适配器未找到".
    pub fn get_import_adapter(&self, target: &CompilationTarget) -> (r: Result<&I, GaiaError>)
        ensures
            self.imports().dom().contains(target@) ==> (r matches Ok(a) && a == &*self.imports()[target@]),
            !self.imports().dom().contains(target@) ==> (r matches Err(e) && registry_error(
                e,
                target@,
                "导入适配器未找到"@,
            )),
    {
        let ghost views = target_views(self.import_adapters@);
        match position(&self.import_adapters, target) {
            Some(i) => {
                proof {
                    lemma_lookup_first(views, i as int);
                }
                Ok(&*self.import_adapters[i].1)
            },
            None => {
                proof {
                    lemma_lookup_absent(views, target@);
                }
                Err(adapter_error(target, "导入适配器未找到"))
            },
        }
    }
}

/// Whether an error is the one a failed clean-up gives: the target's debug
/// text, the message, and the adapter's own error as its source.
pub open spec fn cleanup_error(e: GaiaError, targets: Seq<TargetView>, message: Seq<char>) -> bool {
    e matches GaiaError::AdapterError { adapter, message: m, source } && m@ == message && source is Some && exists|
        i: int,
    |
        0 <= i < targets.len() && adapter@ == target_debug(#[trigger] targets[i])
}

impl<E: ?Sized + ExportAdapter, I: ?Sized + ImportAdapter> AdapterManager<E, I> {
    /// Cleans up every export adapter, then every import adapter, in the
    /// order they were registered, and stops at the first that fails:
    /// "清理导出适配器失败" or "清理导入适配器失败", with the adapter's error
    /// as the source. The adapters stay registered under their targets; with
    /// none registered it succeeds.
    pub fn cleanup_all(&mut self) -> (r: Result<(), GaiaError>)
        ensures
            final(self).export_order() == old(self).export_order(),
            final(self).import_order() == old(self).import_order(),
            final(self).exports().dom() == old(self).exports().dom(),
            final(self).imports().dom() == old(self).imports().dom(),
            old(self).export_order().len() == 0 && old(self).import_order().len() == 0 ==> r is Ok,
            r is Err ==> (r matches Err(e) && (cleanup_error(e, old(self).export_order(), "清理导出适配器失败"@)
                || cleanup_error(e, old(self).import_order(), "清理导入适配器失败"@))),
    {
        let ghost eo = self.export_order();
        let ghost io = self.import_order();
        proof {
            lemma_same_keys_same_domain(self.export_adapters@, self.export_adapters@);
        }
        let mut i: usize = 0;
        while i < self.export_adapters.len()
            invariant
                i <= self.export_adapters@.len(),
                eo == old(self).export_order(),
                io == old(self).import_order(),
                self.export_order() == eo,
                self.import_order() == io,
                self.import_adapters == old(self).import_adapters,
            decreases self.export_adapters.len() - i,
        {
            let ghost before = self.export_adapters@;
            let (t, mut a) = self.export_adapters.remove(i);
            let res = a.cleanup();
            self.export_adapters.insert(i, (t, a));
            assert(self.export_adapters@.map_values(|p: (CompilationTarget, Box<E>)| p.0@) =~= before.map_values(
                |p: (CompilationTarget, Box<E>)| p.0@,
            ));
            match res {
                Ok(()) => {},
                Err(e) => {
                    assert(eo[i as int] == self.export_adapters@[i as int].0@);
                    proof {
                        lemma_same_keys_same_domain(old(self).export_adapters@, self.export_adapters@);
                    }
                    return Err(
                        GaiaError::AdapterError {
                            adapter: target_debug_text(&self.export_adapters[i].0),
                            message: owned("清理导出适配器失败"),
                            source: Some(Box::new(e)),
                        },
                    );
                },
            }
            i = i + 1;
        }
        let mut j: usize = 0;
        while j < self.import_adapters.len()
            invariant
                j <= self.import_adapters@.len(),
                eo == old(self).export_order(),
                io == old(self).import_order(),
                self.export_order() == eo,
                self.import_order() == io,
            decreases self.import_adapters.len() - j,
        {
            let ghost before = self.import_adapters@;
            let (t, mut a) = self.import_adapters.remove(j);
            let res = a.cleanup();
            self.import_adapters.insert(j, (t, a));
            assert(self.import_adapters@.map_values(|p: (CompilationTarget, Box<I>)| p.0@) =~= before.map_values(
                |p: (CompilationTarget, Box<I>)| p.0@,
            ));
            match res {
                Ok(()) => {},
                Err(e) => {
                    assert(io[j as int] == self.import_adapters@[j as int].0@);
                    proof {
                        lemma_same_keys_same_domain(old(self).export_adapters@, self.export_adapters@);
                        lemma_same_keys_same_domain(old(self).import_adapters@, self.import_adapters@);
                    }
                    return Err(
                        GaiaError::AdapterError {
                            adapter: target_debug_text(&self.import_adapters[j].0),
                            message: owned("清理导入适配器失败"),
                            source: Some(Box::new(e)),
                        },
                    );
                },
            }
            j = j + 1;
        }
        proof {
            lemma_same_keys_same_domain(old(self).export_adapters@, self.export_adapters@);
            lemma_same_keys_same_domain(old(self).import_adapters@, self.import_adapters@);
        }
        Ok(())
    }
}

proof fn lemma_lookup_some<K, V>(s: Seq<(K, V)>, k: K)
    ensures
        lookup(s, k) is Some <==> exists|j: int| 0 <= j < s.len() && (#[trigger] s[j]).0 == k,
    decreases s.len(),
{
    if s.len() > 0 {
        lemma_lookup_some(s.drop_first(), k);
        if s[0].0 != k {
            assert forall|j: int| 0 <= j < s.len() && (#[trigger] s[j]).0 == k implies exists|i: int|
                0 <= i < s.drop_first().len() && (#[trigger] s.drop_first()[i]).0 == k by {
                assert(s.drop_first()[j - 1] == s[j]);
            }
            if lookup(s.drop_first(), k) is Some {
                let i = choose|i: int| 0 <= i < s.drop_first().len() && (#[trigger] s.drop_first()[i]).0 == k;
                assert(s[i + 1] == s.drop_first()[i]);
            }
        } else {
            assert(s[0].0 == k);
        }
    }
}

/// Registries with the same targets in the same order have the same domain.
proof fn lemma_same_keys_same_domain<A: ?Sized>(a: Seq<(CompilationTarget, Box<A>)>, b: Seq<(CompilationTarget, Box<A>)>)
    requires
        a.map_values(|p: (CompilationTarget, Box<A>)| p.0@) == b.map_values(|p: (CompilationTarget, Box<A>)| p.0@),
    ensures
        entries_map(target_views(a)).dom() == entries_map(target_views(b)).dom(),
{
    let ka = a.map_values(|p: (CompilationTarget, Box<A>)| p.0@);
    let kb = b.map_values(|p: (CompilationTarget, Box<A>)| p.0@);
    assert forall|k: TargetView| entries_map(target_views(a)).dom().contains(k) == entries_map(target_views(b)).dom().contains(k) by {
        lemma_lookup_some(target_views(a), k);
        lemma_lookup_some(target_views(b), k);
        assert(a.len() == ka.len() && b.len() == kb.len());
        if exists|j: int| 0 <= j < target_views(a).len() && (#[trigger] target_views(a)[j]).0 == k {
            let j = choose|j: int| 0 <= j < target_views(a).len() && (#[trigger] target_views(a)[j]).0 == k;
            assert(ka[j] == kb[j]);
            assert(target_views(b)[j].0 == k);
        }
        if exists|j: int| 0 <= j < target_views(b).len() && (#[trigger] target_views(b)[j]).0 == k {
            let j = choose|j: int| 0 <= j < target_views(b).len() && (#[trigger] target_views(b)[j]).0 == k;
            assert(ka[j] == kb[j]);
            assert(target_views(a)[j].0 == k);
        }
    }
    assert(entries_map(target_views(a)).dom() =~= entries_map(target_views(b)).dom());
}

impl<E: ?Sized, I: ?Sized> Default for AdapterManager<E, I> {
    /// No adapter.
    fn default() -> (r: Self)
        ensures
            r.exports() == Map::<TargetView, Box<E>>::empty(),
            r.imports() == Map::<TargetView, Box<I>>::empty(),
    {
        Self::new()
    }
}

/// Once an export adapter is registered for a target, the target reads as
/// that adapter (so that a second registration for it is refused) and the
/// other targets are registered or not as before.
pub proof fn law_register_once<E: ?Sized, I: ?Sized>(
    before: AdapterManager<E, I>,
    after: AdapterManager<E, I>,
    target: TargetView,
    adapter: Box<E>,
)
    requires
        !before.exports().dom().contains(target),
        after.exports() == before.exports().insert(target, adapter),
    ensures
        after.exports().dom().contains(target),
        after.exports()[target] == adapter,
        forall|t: TargetView| t != target ==> after.exports().dom().contains(t) == before.exports().dom().contains(t),
{
}

impl<E: ?Sized, I: ?Sized> AdapterManager<E, I> {
    /// Managers with the same targets in the same order have the same
    /// registered targets.
    pub proof fn lemma_same_order_same_targets(a: Self, b: Self)
        requires
            a.export_order() == b.export_order(),
            a.import_order() == b.import_order(),
        ensures
            a.exports().dom() == b.exports().dom(),
            a.imports().dom() == b.imports().dom(),
    {
        lemma_same_keys_same_domain(a.export_adapters@, b.export_adapters@);
        lemma_same_keys_same_domain(a.import_adapters@, b.import_adapters@);
    }

    /// The export adapter of a target, to change, or "导出适配器未找到".
    pub fn get_export_adapter_mut(&mut self, target: &CompilationTarget) -> (r: Result<&mut E, GaiaError>)
        ensures
            old(self).exports().dom().contains(target@) <==> r is Ok,
            !old(self).exports().dom().contains(target@) ==> (r matches Err(e) && registry_error(
                e,
                target@,
                "导出适配器未找到"@,
            )),
            final(self).export_order() == old(self).export_order(),
            final(self).imports() == old(self).imports(),
            final(self).import_order() == old(self).import_order(),
    {
        let ghost views = target_views(self.export_adapters@);
        match position(&self.export_adapters, target) {
            Some(i) => {
                proof {
                    lemma_lookup_first(views, i as int);
                }
                Ok(&mut *self.export_adapters[i].1)
            },
            None => {
                proof {
                    lemma_lookup_absent(views, target@);
                }
                Err(adapter_error(target, "导出适配器未找到"))
            },
        }
    }

    /// The import adapter of a target, to change, or "导入适配器未找到".
    pub fn get_import_adapter_mut(&mut self, target: &CompilationTarget) -> (r: Result<&mut I, GaiaError>)
        ensures
            old(self).imports().dom().contains(target@) <==> r is Ok,
            !old(self).imports().dom().contains(target@) ==> (r matches Err(e) && registry_error(
                e,
                target@,
                "导入适配器未找到"@,
            )),
            final(self).import_order() == old(self).import_order(),
            final(self).exports() == old(self).exports(),
            final(self).export_order() == old(self).export_order(),
    {
        let ghost views = target_views(self.import_adapters@);
        match position(&self.import_adapters, target) {
            Some(i) => {
                proof {
                    lemma_lookup_first(views, i as int);
                }
                Ok(&mut *self.import_adapters[i].1)
            },
            None => {
                proof {
                    lemma_lookup_absent(views, target@);
                }
                Err(adapter_error(target, "导入适配器未找到"))
            },
        }
    }
}

/// Text order as `String`'s: character by character by code point (the
/// order of their UTF-8 bytes), a prefix before what extends it.
pub open spec fn text_le(a: Seq<char>, b: Seq<char>) -> bool
    decreases a.len(),
{
    if a.len() == 0 {
        true
    } else if b.len() == 0 {
        false
    } else if a[0] != b[0] {
        (a[0] as u32) < (b[0] as u32)
    } else {
        text_le(a.drop_first(), b.drop_first())
    }
}

/// A target put into a list sorted by debug text: after every target whose
/// text is not greater, so that equal texts keep their order.
pub open spec fn insert_by_debug(s: Seq<TargetView>, t: TargetView) -> Seq<TargetView>
    decreases s.len(),
{
    if s.len() == 0 {
        seq![t]
    } else if text_le(target_debug(s.last()), target_debug(t)) {
        s.push(t)
    } else {
        insert_by_debug(s.drop_last(), t).push(s.last())
    }
}

/// Targets sorted by debug text, stably.
pub open spec fn sort_by_debug(s: Seq<TargetView>) -> Seq<TargetView>
    decreases s.len(),
{
    if s.len() == 0 {
        seq![]
    } else {
        insert_by_debug(sort_by_debug(s.drop_last()), s.last())
    }
}

/// Each target kept at its first occurrence only.
pub open spec fn dedup(s: Seq<TargetView>) -> Seq<TargetView>
    decreases s.len(),
{
    if s.len() == 0 {
        s
    } else {
        let d = dedup(s.drop_last());
        if d.contains(s.last()) {
            d
        } else {
            d.push(s.last())
        }
    }
}

proof fn lemma_dedup(s: Seq<TargetView>)
    ensures
        dedup(s).no_duplicates(),
        forall|x: TargetView| #[trigger] dedup(s).contains(x) <==> s.contains(x),
    decreases s.len(),
{
    if s.len() > 0 {
        let p = s.drop_last();
        lemma_dedup(p);
        assert forall|x: TargetView| s.contains(x) <==> (p.contains(x) || x == s.last()) by {
            if s.contains(x) {
                let i = choose|i: int| 0 <= i < s.len() && s[i] == x;
                if i < s.len() - 1 {
                    assert(p[i] == x);
                }
            }
            if p.contains(x) {
                let i = choose|i: int| 0 <= i < p.len() && p[i] == x;
                assert(s[i] == x);
            }
            if x == s.last() {
                assert(s[s.len() - 1] == x);
            }
        }
        let d = dedup(p);
        if !d.contains(s.last()) {
            let e = d.push(s.last());
            assert forall|x: TargetView| e.contains(x) <==> (d.contains(x) || x == s.last()) by {
                if e.contains(x) {
                    let i = choose|i: int| 0 <= i < e.len() && e[i] == x;
                    if i < d.len() {
                        assert(d[i] == x);
                    }
                }
                if d.contains(x) {
                    let i = choose|i: int| 0 <= i < d.len() && d[i] == x;
                    assert(e[i] == x);
                }
                if x == s.last() {
                    assert(e[d.len() as int] == x);
                }
            }
            assert forall|i: int, j: int| 0 <= i < e.len() && 0 <= j < e.len() && i != j implies e[i] != e[j] by {
                if i < d.len() && j < d.len() {
                } else if i < d.len() {
                    assert(d[i] == e[i]);
                } else {
                    assert(d[j] == e[j]);
                }
            }
        }
    }
}

proof fn lemma_insert_contains(s: Seq<TargetView>, t: TargetView)
    ensures
        forall|x: TargetView| #[trigger] insert_by_debug(s, t).contains(x) <==> (s.contains(x) || x == t),
    decreases s.len(),
{
    if s.len() == 0 {
        lemma_push_contains(s, t);
        assert(insert_by_debug(s, t) =~= s.push(t));
    } else {
        let p = s.drop_last();
        lemma_push_contains(p, s.last());
        assert(p.push(s.last()) =~= s);
        if text_le(target_debug(s.last()), target_debug(t)) {
            lemma_push_contains(s, t);
        } else {
            lemma_insert_contains(p, t);
            let q = insert_by_debug(p, t);
            lemma_push_contains(q, s.last());
            assert(insert_by_debug(s, t) == q.push(s.last()));
            assert forall|x: TargetView| insert_by_debug(s, t).contains(x) <==> (s.contains(x) || x == t) by {
                assert(q.push(s.last()).contains(x) <==> (q.contains(x) || x == s.last()));
                assert(q.contains(x) <==> (p.contains(x) || x == t));
                assert(p.push(s.last()).contains(x) <==> (p.contains(x) || x == s.last()));
            }
        }
    }
}

proof fn lemma_push_contains(s: Seq<TargetView>, t: TargetView)
    ensures
        forall|x: TargetView| #[trigger] s.push(t).contains(x) <==> (s.contains(x) || x == t),
{
    assert forall|x: TargetView| s.push(t).contains(x) <==> (s.contains(x) || x == t) by {
        let e = s.push(t);
        if e.contains(x) {
            let i = choose|i: int| 0 <= i < e.len() && e[i] == x;
            if i < s.len() {
                assert(s[i] == x);
            }
        }
        if s.contains(x) {
            let i = choose|i: int| 0 <= i < s.len() && s[i] == x;
            assert(e[i] == x);
        }
        if x == t {
            assert(e[s.len() as int] == x);
        }
    }
}

proof fn lemma_sort_contains(s: Seq<TargetView>)
    ensures
        forall|x: TargetView| #[trigger] sort_by_debug(s).contains(x) <==> s.contains(x),
    decreases s.len(),
{
    if s.len() > 0 {
        let p = s.drop_last();
        lemma_sort_contains(p);
        lemma_insert_contains(sort_by_debug(p), s.last());
        lemma_push_contains(p, s.last());
        assert(p.push(s.last()) =~= s);
        assert forall|x: TargetView| sort_by_debug(s).contains(x) <==> s.contains(x) by {
            assert(sort_by_debug(s) == insert_by_debug(sort_by_debug(p), s.last()));
            assert(sort_by_debug(p).contains(x) <==> p.contains(x));
            assert(p.push(s.last()).contains(x) <==> (p.contains(x) || x == s.last()));
        }
    }
}

/// Whether `a` comes before or with `b` in text order (`text_le`).
fn text_le_exec(a: &str, b: &str) -> (r: bool)
    ensures
        r == text_le(a@, b@),
{
    let x = crate::text::chars_of(a);
    let y = crate::text::chars_of(b);
    let mut i: usize = 0;
    assert(a@.skip(0) =~= a@);
    assert(b@.skip(0) =~= b@);
    while i < x.len() && i < y.len() && x[i] == y[i]
        invariant
            i <= x@.len(),
            i <= y@.len(),
            x@ == a@,
            y@ == b@,
            text_le(a@, b@) == text_le(a@.skip(i as int), b@.skip(i as int)),
        decreases x.len() - i,
    {
        proof {
            assert(a@.skip(i as int).drop_first() =~= a@.skip(i + 1));
            assert(b@.skip(i as int).drop_first() =~= b@.skip(i + 1));
        }
        i = i + 1;
    }
    proof {
        if i < x@.len() && i < y@.len() {
            assert(a@.skip(i as int)[0] == x@[i as int]);
            assert(b@.skip(i as int)[0] == y@[i as int]);
        }
    }
    if i == x.len() {
        true
    } else if i == y.len() {
        false
    } else {
        (x[i] as u32) < (y[i] as u32)
    }
}

/// Where `insert_by_debug` puts a target: after the last element whose text
/// is not greater.
proof fn lemma_insert_by_debug(s: Seq<TargetView>, t: TargetView, j: int)
    requires
        0 <= j <= s.len(),
        j == 0 || text_le(target_debug(s[j - 1]), target_debug(t)),
        forall|k: int| j <= k < s.len() ==> !text_le(target_debug(#[trigger] s[k]), target_debug(t)),
    ensures
        insert_by_debug(s, t) == s.insert(j, t),
    decreases s.len(),
{
    if s.len() == 0 {
        assert(s.insert(j, t) =~= seq![t]);
    } else if j == s.len() {
        assert(s.last() == s[j - 1]);
        assert(s.insert(j, t) =~= s.push(t));
    } else {
        assert(s[s.len() - 1] == s.last());
        assert(!text_le(target_debug(s.last()), target_debug(t)));
        assert forall|k: int| j <= k < s.drop_last().len() implies !text_le(
            target_debug(#[trigger] s.drop_last()[k]),
            target_debug(t),
        ) by {
            assert(s.drop_last()[k] == s[k]);
        }
        if j > 0 {
            assert(s.drop_last()[j - 1] == s[j - 1]);
        }
        lemma_insert_by_debug(s.drop_last(), t, j);
        assert(s.drop_last().insert(j, t).push(s.last()) =~= s.insert(j, t));
    }
}

pub open spec fn keys_match(keys: Seq<String>, sorted: Seq<CompilationTarget>) -> bool {
    keys.len() == sorted.len() && forall|k: int| 0 <= k < keys.len() ==> (#[trigger] keys[k])@ == target_debug(sorted[k]@)
}

pub open spec fn target_seq(v: Seq<CompilationTarget>) -> Seq<TargetView> {
    v.map_values(|t: CompilationTarget| t@)
}

/// Puts a target into targets sorted by debug text (`insert_by_debug`),
/// with the debug texts alongside.
fn insert_target(sorted: &mut Vec<CompilationTarget>, keys: &mut Vec<String>, t: CompilationTarget)
    requires
        keys_match(old(keys)@, old(sorted)@),
    ensures
        keys_match(final(keys)@, final(sorted)@),
        target_seq(final(sorted)@) == insert_by_debug(target_seq(old(sorted)@), t@),
{
    let key = target_debug_text(&t);
    let ghost before = target_seq(sorted@);
    let mut j: usize = sorted.len();
    while j > 0 && !text_le_exec(keys[j - 1].as_str(), key.as_str())
        invariant
            j <= sorted@.len(),
            keys_match(keys@, sorted@),
            before == target_seq(sorted@),
            key@ == target_debug(t@),
            forall|k: int| j <= k < before.len() ==> !text_le(target_debug(#[trigger] before[k]), target_debug(t@)),
        decreases j,
    {
        j = j - 1;
    }
    proof {
        if j > 0 {
            assert(keys@[j - 1]@ == target_debug(before[j - 1]));
        }
        lemma_insert_by_debug(before, t@, j as int);
    }
    let ghost ok = keys@;
    let ghost os = sorted@;
    let ghost tv = t@;
    sorted.insert(j, t);
    keys.insert(j, key);
    proof {
        assert(target_seq(sorted@) =~= before.insert(j as int, tv));
        assert forall|k: int| 0 <= k < keys@.len() implies (#[trigger] keys@[k])@ == target_debug(sorted@[k]@) by {
            if k < j {
                assert(keys@[k] == ok[k] && sorted@[k] == os[k]);
            } else if k > j {
                assert(keys@[k] == ok[k - 1] && sorted@[k] == os[k - 1]);
            }
        }
    }
}

impl<E: ?Sized, I: ?Sized> AdapterManager<E, I> {
    /// The targets of all adapters, export then import, sorted by their
    /// debug text (stably), each target kept once: every registered target,
    /// no other, none twice.
    pub fn list_supported_targets(&self) -> (r: Vec<CompilationTarget>)
        ensures
            target_seq(r@) == dedup(sort_by_debug(self.export_order() + self.import_order())),
            target_seq(r@).no_duplicates(),
            forall|x: TargetView|
                target_seq(r@).contains(x) <==> (self.export_order() + self.import_order()).contains(x),
    {
        let ghost all = self.export_order() + self.import_order();
        let ghost n_e = self.export_adapters@.len();
        let mut sorted: Vec<CompilationTarget> = Vec::new();
        let mut keys: Vec<String> = Vec::new();
        assert(all.take(0) =~= seq![]);
        assert(target_seq(sorted@) =~= seq![]);
        let mut i: usize = 0;
        while i < self.export_adapters.len()
            invariant
                i <= self.export_adapters@.len(),
                n_e == self.export_adapters@.len(),
                all == self.export_order() + self.import_order(),
                keys_match(keys@, sorted@),
                target_seq(sorted@) == sort_by_debug(all.take(i as int)),
            decreases self.export_adapters.len() - i,
        {
            let t = copy_target(&self.export_adapters[i].0);
            proof {
                assert(t@ == all[i as int]);
                assert(all.take(i + 1).drop_last() =~= all.take(i as int));
            }
            insert_target(&mut sorted, &mut keys, t);
            i = i + 1;
        }
        let mut j: usize = 0;
        while j < self.import_adapters.len()
            invariant
                j <= self.import_adapters@.len(),
                n_e == self.export_adapters@.len(),
                all == self.export_order() + self.import_order(),
                keys_match(keys@, sorted@),
                target_seq(sorted@) == sort_by_debug(all.take(n_e + j)),
            decreases self.import_adapters.len() - j,
        {
            let t = copy_target(&self.import_adapters[j].0);
            proof {
                assert(t@ == all[n_e + j]);
                assert(all.take(n_e + j + 1).drop_last() =~= all.take(n_e + j));
            }
            insert_target(&mut sorted, &mut keys, t);
            j = j + 1;
        }
        assert(all.take(n_e + j) =~= all);
        let mut r: Vec<CompilationTarget> = Vec::new();
        let mut k: usize = 0;
        let ghost s = sort_by_debug(all);
        assert(s.take(0) =~= seq![]);
        assert(target_seq(r@) =~= seq![]);
        while k < sorted.len()
            invariant
                k <= sorted@.len(),
                s == target_seq(sorted@),
                target_seq(r@) == dedup(s.take(k as int)),
            decreases sorted.len() - k,
        {
            proof {
                assert(s.take(k + 1).drop_last() =~= s.take(k as int));
                assert(s.take(k + 1).last() == sorted@[k as int]@);
            }
            let mut seen = false;
            let mut m: usize = 0;
            while m < r.len()
                invariant
                    m <= r@.len(),
                    k < sorted@.len(),
                    seen == exists|q: int| 0 <= q < m && r@[q]@ == sorted@[k as int]@,
                decreases r@.len() - m,
            {
                if same_target(&r[m], &sorted[k]) {
                    seen = true;
                }
                m = m + 1;
            }
            proof {
                let v = target_seq(r@);
                if seen {
                    let q = choose|q: int| 0 <= q < r@.len() && r@[q]@ == sorted@[k as int]@;
                    assert(v[q] == sorted@[k as int]@);
                } else {
                    assert forall|q: int| 0 <= q < v.len() implies v[q] != sorted@[k as int]@ by {
                        assert(v[q] == r@[q]@);
                    }
                }
            }
            if !seen {
                r.push(copy_target(&sorted[k]));
            }
            proof {
                assert(target_seq(r@) =~= dedup(s.take(k + 1)));
            }
            k = k + 1;
        }
        proof {
            lemma_dedup(s);
            lemma_sort_contains(all);
        }
        assert(s.take(k as int) =~= s);
        r
    }
}
} // verus!

//! The runtime handle: the interpreter's class table, the host-type
//! registry with its method dispatch tables, the module registry, the
//! foreign-object heap and the virtual source-file store.

use vstd::prelude::*;

use crate::value::{MrValue, Value};

verus! {

/// First class-table index at or after `i` whose entry is named `name`.
pub open spec fn class_find(cs: Seq<ClassView>, name: Seq<char>, i: int) -> Option<int>
    decreases cs.len() - i,
{
    if i < 0 || i >= cs.len() {
        None
    } else if cs[i].name == name {
        Some(i)
    } else {
        class_find(cs, name, i + 1)
    }
}

/// What `class_find` returns: the first hit, with nothing before it.
pub proof fn lemma_class_find(cs: Seq<ClassView>, name: Seq<char>, i: int)
    requires
        0 <= i <= cs.len(),
    ensures
        match class_find(cs, name, i) {
            Some(j) => i <= j < cs.len() && cs[j].name == name && (forall|k: int|
                i <= k < j ==> cs[k].name != name),
            None => forall|k: int| i <= k < cs.len() ==> cs[k].name != name,
        },
    decreases cs.len() - i,
{
    if i < cs.len() && cs[i].name != name {
        lemma_class_find(cs, name, i + 1);
    }
}

/// First registry index at or after `i` whose entry is for `token`.
pub open spec fn reg_find(rs: Seq<RegView>, token: TypeToken, i: int) -> Option<int>
    decreases rs.len() - i,
{
    if i < 0 || i >= rs.len() {
        None
    } else if rs[i].token == token {
        Some(i)
    } else {
        reg_find(rs, token, i + 1)
    }
}

/// What `reg_find` returns: the first hit, with nothing before it.
pub proof fn lemma_reg_find(rs: Seq<RegView>, token: TypeToken, i: int)
    requires
        0 <= i <= rs.len(),
    ensures
        match reg_find(rs, token, i) {
            Some(j) => i <= j < rs.len() && rs[j].token == token && (forall|k: int|
                i <= k < j ==> rs[k].token != token),
            None => forall|k: int| i <= k < rs.len() ==> rs[k].token != token,
        },
    decreases rs.len() - i,
{
    if i < rs.len() && rs[i].token != token {
        lemma_reg_find(rs, token, i + 1);
    }
}

/// First index at or after `i` of `name` in a sequence of names.
pub open spec fn name_find(ns: Seq<Seq<char>>, name: Seq<char>, i: int) -> Option<int>
    decreases ns.len() - i,
{
    if i < 0 || i >= ns.len() {
        None
    } else if ns[i] == name {
        Some(i)
    } else {
        name_find(ns, name, i + 1)
    }
}

/// What `name_find` returns: the first hit, with nothing before it.
pub proof fn lemma_name_find(ns: Seq<Seq<char>>, name: Seq<char>, i: int)
    requires
        0 <= i <= ns.len(),
    ensures
        match name_find(ns, name, i) {
            Some(j) => i <= j < ns.len() && ns[j] == name && (forall|k: int|
                i <= k < j ==> ns[k] != name),
            None => forall|k: int| i <= k < ns.len() ==> ns[k] != name,
        },
    decreases ns.len() - i,
{
    if i < ns.len() && ns[i] != name {
        lemma_name_find(ns, name, i + 1);
    }
}

/// First dispatch-table index at or after `i` whose entry is for `sym`.
pub open spec fn method_find(ms: Seq<(usize, MethodEntry)>, sym: usize, i: int) -> Option<int>
    decreases ms.len() - i,
{
    if i < 0 || i >= ms.len() {
        None
    } else if ms[i].0 == sym {
        Some(i)
    } else {
        method_find(ms, sym, i + 1)
    }
}

/// First module-registry index at or after `i` whose entry is named `name`.
pub open spec fn file_find(fs: Seq<FileView>, name: Seq<char>, i: int) -> Option<int>
    decreases fs.len() - i,
{
    if i < 0 || i >= fs.len() {
        None
    } else if fs[i].name == name {
        Some(i)
    } else {
        file_find(fs, name, i + 1)
    }
}

/// First file-store index at or after `i` whose file is named `name`.
pub open spec fn fs_find(fs: Seq<FsView>, name: Seq<char>, i: int) -> Option<int>
    decreases fs.len() - i,
{
    if i < 0 || i >= fs.len() {
        None
    } else if fs[i].name == name {
        Some(i)
    } else {
        fs_find(fs, name, i + 1)
    }
}

/// An entry of the interpreter's class table.
///
/// `data_tt` marks classes whose instances carry foreign data; `included`
/// and `prepended` record module composition in the order it was requested.
#[derive(Debug)]
pub struct ClassDef {
    pub name: String,
    pub is_module: bool,
    pub data_tt: bool,
    pub included: Vec<usize>,
    pub prepended: Vec<usize>,
}

/// Spec-level mirror of [`ClassDef`].
#[verifier::ext_equal]
pub struct ClassView {
    pub name: Seq<char>,
    pub is_module: bool,
    pub data_tt: bool,
    pub included: Seq<usize>,
    pub prepended: Seq<usize>,
}

impl View for ClassDef {
    type V = ClassView;

    open spec fn view(&self) -> ClassView {
        ClassView {
            name: self.name@,
            is_module: self.is_module,
            data_tt: self.data_tt,
            included: self.included@,
            prepended: self.prepended@,
        }
    }
}

/// The identity of a host type, chosen by host code.
///
/// The registry is keyed by these tokens; they stand for the host
/// language's own notion of type identity, which the runtime never sees.
#[derive(Clone, Copy, PartialEq, Eq, Structural, Debug)]
pub struct TypeToken(pub u64);

/// A method implementation recorded in a dispatch table: either a host
/// closure, named by an opaque handle that the host resolves when asked to
/// run it, or the automatic duplication method every registered type gets.
#[derive(Clone, Copy, PartialEq, Eq, Structural, Debug)]
pub enum MethodEntry {
    Host(usize),
    Dup,
}

/// A class registration entry: the script-side class, the recorded display
/// name used for name-based confirmation on downcasts, the foreign-data
/// descriptor identity, and the two method dispatch tables, keyed by
/// interned method symbols.
#[derive(Debug)]
pub struct Registration {
    pub token: TypeToken,
    pub class: usize,
    pub name: String,
    pub dtype: u64,
    pub methods: Vec<(usize, MethodEntry)>,
    pub class_methods: Vec<(usize, MethodEntry)>,
}

/// Spec-level mirror of [`Registration`].
#[verifier::ext_equal]
pub struct RegView {
    pub token: TypeToken,
    pub class: usize,
    pub name: Seq<char>,
    pub dtype: u64,
    pub methods: Seq<(usize, MethodEntry)>,
    pub class_methods: Seq<(usize, MethodEntry)>,
}

impl View for Registration {
    type V = RegView;

    open spec fn view(&self) -> RegView {
        RegView {
            token: self.token,
            class: self.class,
            name: self.name@,
            dtype: self.dtype,
            methods: self.methods@,
            class_methods: self.class_methods@,
        }
    }
}

/// One registration step that a module loader performs when its module is
/// required.
#[derive(Debug)]
pub enum RegOp {
    DefClass { token: TypeToken, name: String },
    DefMethod { token: TypeToken, name: String, method: usize },
    DefClassMethod { token: TypeToken, name: String, method: usize },
}

/// A module loader: the registrations it performs, in order.
pub type Loader = Vec<RegOp>;

/// A `trait` useful for organising host types into dynamic script files:
/// `require` describes the registrations loading the file performs.
pub trait MrubyFile {
    fn require() -> Loader;
}

/// A named module with its registered loaders, in registration order.
#[derive(Debug)]
pub struct FileEntry {
    pub name: String,
    pub loaders: Vec<Loader>,
}

/// Spec-level mirror of [`FileEntry`].
#[verifier::ext_equal]
pub struct FileView {
    pub name: Seq<char>,
    pub loaders: Seq<Seq<RegOp>>,
}

impl View for FileEntry {
    type V = FileView;

    open spec fn view(&self) -> FileView {
        FileView { name: self.name@, loaders: self.loaders@.map_values(|l: Loader| l@) }
    }
}

/// A source file of the virtual file store that `require` and
/// `execute` consult.
#[derive(Debug)]
pub struct SourceFile {
    pub name: String,
    pub contents: String,
}

/// Spec-level mirror of [`SourceFile`].
#[verifier::ext_equal]
pub struct FsView {
    pub name: Seq<char>,
    pub contents: Seq<char>,
}

impl View for SourceFile {
    type V = FsView;

    open spec fn view(&self) -> FsView {
        FsView { name: self.name@, contents: self.contents@ }
    }
}

/// A heap slot holding a foreign host object and its reference count.
///
/// The count tracks how many script-side wrappers share the object; it
/// saturates rather than overflows, trading an unreclaimable object for
/// soundness in the unreachable extreme.  A freed slot keeps its index but
/// holds no object.
#[derive(Debug)]
pub struct Slot<O> {
    pub obj: Option<O>,
    pub count: u64,
    pub dtype: u64,
}

/// An active script exception: its class name and message.
#[derive(Debug)]
pub struct Exc {
    pub class: String,
    pub message: String,
}

/// Spec-level mirror of [`Exc`].
#[verifier::ext_equal]
pub struct ExcView {
    pub class: Seq<char>,
    pub message: Seq<char>,
}

impl View for Exc {
    type V = ExcView;

    open spec fn view(&self) -> ExcView {
        ExcView { class: self.class@, message: self.message@ }
    }
}

/// Spec-level mirror of the whole runtime state, over which the runtime's
/// contracts and laws are stated.
#[verifier::ext_equal]
pub struct StateView<O> {
    pub classes: Seq<ClassView>,
    pub registry: Seq<RegView>,
    pub symtab: Seq<Seq<char>>,
    pub files: Seq<FileView>,
    pub required: Seq<Seq<char>>,
    pub fs: Seq<FsView>,
    pub heap: Seq<Slot<O>>,
    pub exception: Option<ExcView>,
    pub filename: Option<Seq<char>>,
    pub next_dtype: u64,
}

/// A safe `struct` for the embedded runtime.  It owns the interpreter
/// state outright: the class table, the registries, the heap of foreign
/// objects and the virtual file store.  `O` is the host's universe of
/// foreign objects.
#[derive(Debug)]
pub struct Mruby<O> {
    pub classes: Vec<ClassDef>,
    pub registry: Vec<Registration>,
    pub symtab: Vec<String>,
    pub files: Vec<FileEntry>,
    pub required: Vec<String>,
    pub fs: Vec<SourceFile>,
    pub heap: Vec<Slot<O>>,
    pub exception: Option<Exc>,
    pub filename: Option<String>,
    pub next_dtype: u64,
}

impl<O> View for Mruby<O> {
    type V = StateView<O>;

    open spec fn view(&self) -> StateView<O> {
        StateView {
            classes: self.classes@.map_values(|c: ClassDef| c@),
            registry: self.registry@.map_values(|r: Registration| r@),
            symtab: self.symtab@.map_values(|s: String| s@),
            files: self.files@.map_values(|f: FileEntry| f@),
            required: self.required@.map_values(|s: String| s@),
            fs: self.fs@.map_values(|f: SourceFile| f@),
            heap: self.heap@,
            exception: match self.exception {
                Some(ref e) => Some(e@),
                None => None,
            },
            filename: match self.filename {
                Some(ref s) => Some(s@),
                None => None,
            },
            next_dtype: self.next_dtype,
        }
    }
}

impl<O> StateView<O> {
    /// Index of the class table entry named `name`.
    pub open spec fn class_index(self, name: Seq<char>) -> Option<int> {
        class_find(self.classes, name, 0)
    }

    /// Index of the registration entry for `token`.
    pub open spec fn reg_index(self, token: TypeToken) -> Option<int> {
        reg_find(self.registry, token, 0)
    }

    /// Index of the module entry named `name`.
    pub open spec fn file_index(self, name: Seq<char>) -> Option<int> {
        file_find(self.files, name, 0)
    }

    /// Index of the stored source file named `name`.
    pub open spec fn fs_index(self, name: Seq<char>) -> Option<int> {
        fs_find(self.fs, name, 0)
    }

    /// Whether the module named `name` has already been required.
    pub open spec fn is_required(self, name: Seq<char>) -> bool {
        name_find(self.required, name, 0) is Some
    }

    /// Well-formedness: every registration points into the class table and
    /// records exactly the name of the class it points to.
    pub open spec fn wf(self) -> bool {
        forall|i: int|
            0 <= i < self.registry.len() ==> {
                &&& (#[trigger] self.registry[i]).class < self.classes.len()
                &&& self.classes[self.registry[i].class as int].name == self.registry[i].name
            }
    }
}

/// The runtime state a freshly opened interpreter presents: the `Object`
/// class, the `Kernel` module, and the class used to surface host-side
/// abnormal termination as a script exception.
pub open spec fn initial_state<O>() -> StateView<O> {
    StateView {
        classes: seq![
            ClassView {
                name: "Object"@,
                is_module: false,
                data_tt: false,
                included: Seq::empty(),
                prepended: Seq::empty(),
            },
            ClassView {
                name: "Kernel"@,
                is_module: true,
                data_tt: false,
                included: Seq::empty(),
                prepended: Seq::empty(),
            },
            ClassView {
                name: "RustPanic"@,
                is_module: false,
                data_tt: false,
                included: Seq::empty(),
                prepended: Seq::empty(),
            },
        ],
        registry: Seq::empty(),
        symtab: Seq::empty(),
        files: Seq::empty(),
        required: Seq::empty(),
        fs: Seq::empty(),
        heap: Seq::empty(),
        exception: None,
        filename: None,
        next_dtype: 0,
    }
}

/// A fresh class-table entry.
fn blank_class(name: String, is_module: bool) -> (c: ClassDef)
    ensures
        c@ == (ClassView {
            name: name@,
            is_module: is_module,
            data_tt: false,
            included: Seq::<usize>::empty(),
            prepended: Seq::<usize>::empty(),
        }),
{
    let c = ClassDef { name, is_module, data_tt: false, included: Vec::new(), prepended: Vec::new() };
    proof {
        assert(c@.included =~= Seq::<usize>::empty());
        assert(c@.prepended =~= Seq::<usize>::empty());
    }
    c
}

/// Defining a class or module named `name`: the existing entry if one is
/// named so, else a fresh non-data entry appended to the class table.
pub open spec fn spec_define_class<O>(s: StateView<O>, name: Seq<char>, is_module: bool) -> (
    StateView<O>,
    int,
) {
    match s.class_index(name) {
        Some(i) => (s, i),
        None => (
            StateView {
                classes: s.classes.push(
                    ClassView {
                        name: name,
                        is_module: is_module,
                        data_tt: false,
                        included: Seq::empty(),
                        prepended: Seq::empty(),
                    },
                ),
                ..s
            },
            s.classes.len() as int,
        ),
    }
}

/// Interning a method name: the index of its first occurrence in the
/// symbol table, or the table extended with the name and its new index.
pub open spec fn spec_intern(symtab: Seq<Seq<char>>, name: Seq<char>) -> (Seq<Seq<char>>, usize) {
    match name_find(symtab, name, 0) {
        Some(i) => (symtab, i as usize),
        None => (symtab.push(name), symtab.len() as usize),
    }
}

/// Replaces the entry for `sym` in a dispatch table, or appends one.
pub open spec fn upsert_method(
    ms: Seq<(usize, MethodEntry)>,
    sym: usize,
    entry: MethodEntry,
) -> Seq<(usize, MethodEntry)> {
    match method_find(ms, sym, 0) {
        Some(i) => ms.update(i, (sym, entry)),
        None => ms.push((sym, entry)),
    }
}

/// Defining a method: `name` is interned and `entry` recorded under it in
/// `token`'s instance or class dispatch table; with no registration for
/// `token` only the interning remains.
pub open spec fn spec_def_method<O>(
    s: StateView<O>,
    token: TypeToken,
    name: Seq<char>,
    entry: MethodEntry,
    class_table: bool,
) -> StateView<O> {
    let interned = spec_intern(s.symtab, name);
    let s1 = StateView { symtab: interned.0, ..s };
    match s1.reg_index(token) {
        None => s1,
        Some(i) => {
            let reg = s1.registry[i];
            let reg2 = if class_table {
                RegView { class_methods: upsert_method(reg.class_methods, interned.1, entry), ..reg }
            } else {
                RegView { methods: upsert_method(reg.methods, interned.1, entry), ..reg }
            };
            StateView { registry: s1.registry.update(i, reg2), ..s1 }
        },
    }
}

/// Registering host type `token` under class `cid` named `name`: a fresh
/// registration with a fresh data-type descriptor and empty dispatch
/// tables replaces any previous one for `token`.
pub open spec fn spec_register<O>(
    s: StateView<O>,
    token: TypeToken,
    name: Seq<char>,
    cid: usize,
) -> StateView<O> {
    let reg = RegView {
        token: token,
        class: cid,
        name: name,
        dtype: s.next_dtype,
        methods: Seq::empty(),
        class_methods: Seq::empty(),
    };
    StateView {
        registry: match s.reg_index(token) {
            Some(i) => s.registry.update(i, reg),
            None => s.registry.push(reg),
        },
        next_dtype: if s.next_dtype < u64::MAX {
            (s.next_dtype + 1) as u64
        } else {
            s.next_dtype
        },
        ..s
    }
}

/// Defining host type `token` as a script class named `name`: the class
/// is created or reused and marked as a foreign-data carrier, `token` is
/// registered afresh, and the automatic duplication method is installed.
pub open spec fn spec_def_class<O>(s: StateView<O>, token: TypeToken, name: Seq<char>) -> StateView<
    O,
> {
    let d = spec_define_class(s, name, false);
    let cid = d.1;
    let s2 = StateView {
        classes: d.0.classes.update(cid, ClassView { data_tt: true, ..d.0.classes[cid] }),
        ..d.0
    };
    let s3 = spec_register(s2, token, name, cid as usize);
    spec_def_method(s3, token, "dup"@, MethodEntry::Dup, false)
}

/// `spec_def_method` preserves well-formedness: it only rewrites a
/// registration's dispatch tables, never its class or recorded name.
pub proof fn lemma_def_method_wf<O>(
    s: StateView<O>,
    token: TypeToken,
    name: Seq<char>,
    entry: MethodEntry,
    class_table: bool,
)
    requires
        s.wf(),
    ensures
        spec_def_method(s, token, name, entry, class_table).wf(),
{
    let s4 = spec_def_method(s, token, name, entry, class_table);
    lemma_reg_find(s.registry, token, 0);
    assert forall|i: int| 0 <= i < s4.registry.len() implies {
        &&& (#[trigger] s4.registry[i]).class < s4.classes.len()
        &&& s4.classes[s4.registry[i].class as int].name == s4.registry[i].name
    } by {
        match s.reg_index(token) {
            None => {
                assert(s4.registry[i] == s.registry[i]);
            },
            Some(j) => {
                if i != j {
                    assert(s4.registry[i] == s.registry[i]);
                } else {
                    assert(s4.registry[i].class == s.registry[i].class);
                    assert(s4.registry[i].name == s.registry[i].name);
                }
            },
        }
    }
}

/// `spec_def_class` preserves well-formedness.
pub proof fn lemma_def_class_wf<O>(s: StateView<O>, token: TypeToken, name: Seq<char>)
    requires
        s.wf(),
        s.classes.len() <= usize::MAX,
    ensures
        spec_def_class(s, token, name).wf(),
{
    lemma_class_find(s.classes, name, 0);
    let d = spec_define_class(s, name, false);
    let cid = d.1;
    assert(0 <= cid < d.0.classes.len());
    assert(d.0.classes[cid].name == name);
    let s2 = StateView {
        classes: d.0.classes.update(cid, ClassView { data_tt: true, ..d.0.classes[cid] }),
        ..d.0
    };
    assert forall|i: int| 0 <= i < s2.registry.len() implies {
        &&& (#[trigger] s2.registry[i]).class < s2.classes.len()
        &&& s2.classes[s2.registry[i].class as int].name == s2.registry[i].name
    } by {
        assert(s2.registry[i] == s.registry[i]);
        assert(s.registry[i].class < s.classes.len());
        assert(s2.classes[s2.registry[i].class as int].name == s.classes[s.registry[i].class as int].name);
    }
    assert(s2.wf());
    let s3 = spec_register(s2, token, name, cid as usize);
    let reg = RegView {
        token: token,
        class: cid as usize,
        name: name,
        dtype: s2.next_dtype,
        methods: Seq::empty(),
        class_methods: Seq::empty(),
    };
    assert(s3.classes == s2.classes);
    assert(s2.classes[cid].name == name);
    lemma_reg_find(s2.registry, token, 0);
    assert forall|i: int| 0 <= i < s3.registry.len() implies {
        &&& (#[trigger] s3.registry[i]).class < s3.classes.len()
        &&& s3.classes[s3.registry[i].class as int].name == s3.registry[i].name
    } by {
        match s2.reg_index(token) {
            Some(k) => {
                if i != k {
                    assert(s3.registry[i] == s2.registry[i]);
                } else {
                    assert(s3.registry[i] == reg);
                }
            },
            None => {
                if i < s2.registry.len() {
                    assert(s3.registry[i] == s2.registry[i]);
                } else {
                    assert(s3.registry[i] == reg);
                }
            },
        }
    }
    assert(s3.wf());
    let s4 = spec_def_method(s3, token, "dup"@, MethodEntry::Dup, false);
    lemma_reg_find(s3.registry, token, 0);
    assert forall|i: int| 0 <= i < s4.registry.len() implies {
        &&& (#[trigger] s4.registry[i]).class < s4.classes.len()
        &&& s4.classes[s4.registry[i].class as int].name == s4.registry[i].name
    } by {
        match s3.reg_index(token) {
            None => {
                assert(s4.registry[i] == s3.registry[i]);
            },
            Some(j) => {
                if i != j {
                    assert(s4.registry[i] == s3.registry[i]);
                } else {
                    assert(s4.registry[i].class == s3.registry[i].class);
                    assert(s4.registry[i].name == s3.registry[i].name);
                }
            },
        }
    }
    assert(s4.wf());
}

/// Replaces the entry for `sym` in a dispatch table, or appends one.
#[verifier::loop_isolation(false)]
fn upsert_pair(table: &mut Vec<(usize, MethodEntry)>, sym: usize, entry: MethodEntry)
    ensures
        final(table)@ == upsert_method(old(table)@, sym, entry),
{
    let m = table.len();
    let mut j: usize = 0;
    while j < m
        invariant
            j <= m,
            *table == *old(table),
            method_find(old(table)@, sym, 0) == method_find(old(table)@, sym, j as int),
        decreases m - j,
    {
        if table[j].0 == sym {
            proof {
                assert(method_find(old(table)@, sym, j as int) == Some(j as int));
            }
            table[j] = (sym, entry);
            return ;
        }
        j = j + 1;
    }
    table.push((sym, entry));
}

impl<O> Mruby<O> {
    /// Creates a runtime with a freshly opened interpreter state.
    pub fn new() -> (m: Mruby<O>)
        ensures
            m@ == initial_state::<O>(),
            m@.wf(),
    {
        let mut classes: Vec<ClassDef> = Vec::new();
        classes.push(blank_class(String::from_str("Object"), false));
        classes.push(blank_class(String::from_str("Kernel"), true));
        classes.push(blank_class(String::from_str("RustPanic"), false));
        let m = Mruby {
            classes,
            registry: Vec::new(),
            symtab: Vec::new(),
            files: Vec::new(),
            required: Vec::new(),
            fs: Vec::new(),
            heap: Vec::new(),
            exception: None,
            filename: None,
            next_dtype: 0,
        };
        proof {
            assert(m@.classes =~= initial_state::<O>().classes);
            assert(m@.registry =~= initial_state::<O>().registry);
            assert(m@.symtab =~= initial_state::<O>().symtab);
            assert(m@.files =~= initial_state::<O>().files);
            assert(m@.required =~= initial_state::<O>().required);
            assert(m@.fs =~= initial_state::<O>().fs);
            assert(m@.heap =~= initial_state::<O>().heap);
            assert(m@ =~= initial_state::<O>());
        }
        m
    }

    /// Adds a filename to the runtime's compile context, annotating later
    /// diagnostics.
    pub fn filename(&mut self, filename: &str)
        ensures
            final(self)@ == (StateView { filename: Some(filename@), ..old(self)@ }),
    {
        self.filename = Some(filename.to_owned());
        proof {
            assert(final(self)@ =~= (StateView { filename: Some(filename@), ..old(self)@ }));
        }
    }

    /// Finds the class table entry named `name`, searching from the front.
    #[verifier::loop_isolation(false)]
    pub(crate) fn lookup_class(&self, name: &str) -> (r: Option<usize>)
        ensures
            match self@.class_index(name@) {
                Some(i) => r matches Some(x) && x as int == i && 0 <= i
                    < self@.classes.len(),
                None => r is None,
            },
    {
        let needle = name.to_owned();
        let n = self.classes.len();
        let mut i: usize = 0;
        while i < n
            invariant
                i <= n,
                class_find(self@.classes, name@, 0) == class_find(self@.classes, name@, i as int),
            decreases n - i,
        {
            if self.classes[i].name == needle {
                proof {
                    assert(self@.classes[i as int].name == name@);
                }
                return Some(i);
            }
            proof {
                assert(self@.classes[i as int].name != name@);
            }
            i = i + 1;
        }
        None
    }

    /// Defines a script class named `name` under `Object` and returns its
    /// class table index; an existing class of that name is returned as is.
    pub fn define_class(&mut self, name: &str) -> (id: usize)
        ensures
            final(self)@ == spec_define_class(old(self)@, name@, false).0,
            id as int == spec_define_class(old(self)@, name@, false).1,
            id < final(self)@.classes.len(),
    {
        match self.lookup_class(name) {
            Some(i) => i,
            None => {
                let id = self.classes.len();
                self.classes.push(blank_class(name.to_owned(), false));
                proof {
                    assert(final(self)@.classes =~= spec_define_class(old(self)@, name@, false).0.classes);
                    assert(final(self)@ =~= spec_define_class(old(self)@, name@, false).0);
                }
                id
            },
        }
    }

    /// Defines a script module named `name` and returns its class table
    /// index; an existing entry of that name is returned as is.
    pub fn define_module(&mut self, name: &str) -> (id: usize)
        ensures
            final(self)@ == spec_define_class(old(self)@, name@, true).0,
            id as int == spec_define_class(old(self)@, name@, true).1,
            id < final(self)@.classes.len(),
    {
        match self.lookup_class(name) {
            Some(i) => i,
            None => {
                let id = self.classes.len();
                self.classes.push(blank_class(name.to_owned(), true));
                proof {
                    assert(final(self)@.classes =~= spec_define_class(old(self)@, name@, true).0.classes);
                    assert(final(self)@ =~= spec_define_class(old(self)@, name@, true).0);
                }
                id
            },
        }
    }

    /// Whether a class-table entry named `name` exists.
    pub fn class_defined(&self, name: &str) -> (r: bool)
        ensures
            r == self@.class_index(name@).is_some(),
    {
        self.lookup_class(name).is_some()
    }

    /// The class named `name`, if defined as a class.
    pub fn class_get(&self, name: &str) -> (r: Option<usize>)
        ensures
            match self@.class_index(name@) {
                Some(i) => if !self@.classes[i].is_module {
                    r matches Some(x) && x as int == i
                } else {
                    r is None
                },
                None => r is None,
            },
    {
        match self.lookup_class(name) {
            Some(i) => {
                if !self.classes[i].is_module {
                    Some(i)
                } else {
                    None
                }
            },
            None => None,
        }
    }

    /// The module named `name`, if defined as a module.
    pub fn module_get(&self, name: &str) -> (r: Option<usize>)
        ensures
            match self@.class_index(name@) {
                Some(i) => if self@.classes[i].is_module {
                    r matches Some(x) && x as int == i
                } else {
                    r is None
                },
                None => r is None,
            },
    {
        match self.lookup_class(name) {
            Some(i) => {
                if self.classes[i].is_module {
                    Some(i)
                } else {
                    None
                }
            },
            None => None,
        }
    }

    /// Records that `target` includes `module`, after any previous
    /// inclusions.
    pub fn include_module(&mut self, target: usize, module: usize)
        requires
            target < old(self)@.classes.len(),
            module < old(self)@.classes.len(),
        ensures
            final(self)@ == (StateView {
                classes: old(self)@.classes.update(
                    target as int,
                    ClassView {
                        included: old(self)@.classes[target as int].included.push(module),
                        ..old(self)@.classes[target as int]
                    },
                ),
                ..old(self)@
            }),
    {
        self.classes[target].included.push(module);
        proof {
            assert(final(self)@.classes =~= (StateView {
                classes: old(self)@.classes.update(
                    target as int,
                    ClassView {
                        included: old(self)@.classes[target as int].included.push(module),
                        ..old(self)@.classes[target as int]
                    },
                ),
                ..old(self)@
            }).classes);
            assert(final(self)@ =~= (StateView {
                classes: old(self)@.classes.update(
                    target as int,
                    ClassView {
                        included: old(self)@.classes[target as int].included.push(module),
                        ..old(self)@.classes[target as int]
                    },
                ),
                ..old(self)@
            }));
        }
    }

    /// Records that `target` prepends `module`, after any previous
    /// prependings.
    pub fn prepend_module(&mut self, target: usize, module: usize)
        requires
            target < old(self)@.classes.len(),
            module < old(self)@.classes.len(),
        ensures
            final(self)@ == (StateView {
                classes: old(self)@.classes.update(
                    target as int,
                    ClassView {
                        prepended: old(self)@.classes[target as int].prepended.push(module),
                        ..old(self)@.classes[target as int]
                    },
                ),
                ..old(self)@
            }),
    {
        self.classes[target].prepended.push(module);
        proof {
            assert(final(self)@.classes =~= (StateView {
                classes: old(self)@.classes.update(
                    target as int,
                    ClassView {
                        prepended: old(self)@.classes[target as int].prepended.push(module),
                        ..old(self)@.classes[target as int]
                    },
                ),
                ..old(self)@
            }).classes);
            assert(final(self)@ =~= (StateView {
                classes: old(self)@.classes.update(
                    target as int,
                    ClassView {
                        prepended: old(self)@.classes[target as int].prepended.push(module),
                        ..old(self)@.classes[target as int]
                    },
                ),
                ..old(self)@
            }));
        }
    }

    /// Creates a plain instance of the class-table entry `class`, with no
    /// foreign data attached.
    pub fn obj_new(&self, class: usize) -> (r: Value)
        requires
            class < self@.classes.len(),
        ensures
            r.value == (MrValue::Instance { class: class, data: None }),
    {
        Value { value: MrValue::Instance { class, data: None } }
    }

    /// Raises a script exception of class `eclass` carrying `message`: the
    /// exception becomes the active one, and `nil` is returned.
    pub fn raise(&mut self, eclass: &str, message: &str) -> (r: Value)
        ensures
            final(self)@ == (StateView {
                exception: Some(ExcView { class: eclass@, message: message@ }),
                ..old(self)@
            }),
            r.value == MrValue::Nil,
    {
        self.exception = Some(Exc { class: eclass.to_owned(), message: message.to_owned() });
        proof {
            assert(final(self)@ =~= (StateView {
                exception: Some(ExcView { class: eclass@, message: message@ }),
                ..old(self)@
            }));
        }
        Value { value: MrValue::Nil }
    }

    /// Stores a source file in the runtime's virtual file store, replacing
    /// any previous file of the same name.
    pub fn mount_file(&mut self, name: &str, contents: &str)
        ensures
            final(self)@ == (StateView {
                fs: match old(self)@.fs_index(name@) {
                    Some(i) => old(self)@.fs.update(
                        i,
                        FsView { name: name@, contents: contents@ },
                    ),
                    None => old(self)@.fs.push(FsView { name: name@, contents: contents@ }),
                },
                ..old(self)@
            }),
    {
        match self.lookup_fs(name) {
            Some(i) => {
                self.fs[i] = SourceFile { name: name.to_owned(), contents: contents.to_owned() };
                proof {
                    assert(final(self)@.fs =~= old(self)@.fs.update(
                        i as int,
                        FsView { name: name@, contents: contents@ },
                    ));
                    assert(final(self)@ =~= (StateView {
                        fs: old(self)@.fs.update(
                            i as int,
                            FsView { name: name@, contents: contents@ },
                        ),
                        ..old(self)@
                    }));
                }
            },
            None => {
                self.fs.push(
                    SourceFile { name: name.to_owned(), contents: contents.to_owned() },
                );
                proof {
                    assert(final(self)@.fs =~= old(self)@.fs.push(
                        FsView { name: name@, contents: contents@ },
                    ));
                    assert(final(self)@ =~= (StateView {
                        fs: old(self)@.fs.push(FsView { name: name@, contents: contents@ }),
                        ..old(self)@
                    }));
                }
            },
        }
    }

    /// Interns `name` as a method symbol: the index of its entry in the
    /// symbol table, appending a fresh entry for a name not seen before.
    #[verifier::loop_isolation(false)]
    pub fn intern(&mut self, name: &str) -> (sym: usize)
        ensures
            final(self)@ == (StateView {
                symtab: spec_intern(old(self)@.symtab, name@).0,
                ..old(self)@
            }),
            sym == spec_intern(old(self)@.symtab, name@).1,
    {
        let needle = name.to_owned();
        let n = self.symtab.len();
        let mut i: usize = 0;
        while i < n
            invariant
                i <= n,
                name_find(self@.symtab, name@, 0) == name_find(self@.symtab, name@, i as int),
            decreases n - i,
        {
            if self.symtab[i] == needle {
                proof {
                    assert(self@.symtab[i as int] == name@);
                }
                return i;
            }
            proof {
                assert(self@.symtab[i as int] != name@);
            }
            i = i + 1;
        }
        self.symtab.push(needle);
        proof {
            assert(final(self)@.symtab =~= old(self)@.symtab.push(name@));
            assert(final(self)@ =~= (StateView {
                symtab: spec_intern(old(self)@.symtab, name@).0,
                ..old(self)@
            }));
        }
        n
    }

    /// Finds the registration entry for `token`.
    #[verifier::loop_isolation(false)]
    pub(crate) fn lookup_reg(&self, token: TypeToken) -> (r: Option<usize>)
        ensures
            match self@.reg_index(token) {
                Some(i) => r matches Some(x) && x as int == i && 0 <= i < self@.registry.len(),
                None => r is None,
            },
    {
        let n = self.registry.len();
        let mut i: usize = 0;
        while i < n
            invariant
                i <= n,
                reg_find(self@.registry, token, 0) == reg_find(self@.registry, token, i as int),
            decreases n - i,
        {
            if self.registry[i].token == token {
                proof {
                    assert(self@.registry[i as int].token == token);
                }
                return Some(i);
            }
            proof {
                assert(self@.registry[i as int].token != token);
            }
            i = i + 1;
        }
        None
    }

    /// Interns `name` and records `entry` under it in one of `token`'s two
    /// dispatch tables; without a registration for `token` only the
    /// interning is kept.
    pub(crate) fn def_method_entry(&mut self, token: TypeToken, name: &str, entry: MethodEntry, class_table: bool)
        ensures
            final(self)@ == spec_def_method(old(self)@, token, name@, entry, class_table),
    {
        let sym = self.intern(name);
        let ghost s1 = self@;
        match self.lookup_reg(token) {
            None => {
                proof {
                    assert(final(self)@ =~= spec_def_method(old(self)@, token, name@, entry, class_table));
                }
            },
            Some(i) => {
                if class_table {
                    upsert_pair(&mut self.registry[i].class_methods, sym, entry);
                } else {
                    upsert_pair(&mut self.registry[i].methods, sym, entry);
                }
                proof {
                    assert(final(self)@.registry =~= spec_def_method(
                        old(self)@,
                        token,
                        name@,
                        entry,
                        class_table,
                    ).registry);
                    assert(final(self)@ =~= spec_def_method(old(self)@, token, name@, entry, class_table));
                }
            },
        }
    }

    /// Defines host type `token` as a script class named `name`.
    ///
    /// The class is created (or reused) as a foreign-data carrier, the
    /// registration for `token` is replaced by a fresh one with a fresh
    /// data-type descriptor and empty dispatch tables, and the automatic
    /// duplication method `dup` is installed.
    pub fn def_class(&mut self, token: TypeToken, name: &str)
        ensures
            final(self)@ == spec_def_class(old(self)@, token, name@),
            old(self)@.wf() ==> final(self)@.wf(),
    {
        let cid = self.define_class(name);
        self.classes[cid].data_tt = true;
        proof {
            let d = spec_define_class(old(self)@, name@, false);
            assert(self@.classes =~= d.0.classes.update(
                cid as int,
                ClassView { data_tt: true, ..d.0.classes[cid as int] },
            ));
            assert(self@ =~= (StateView {
                classes: d.0.classes.update(
                    cid as int,
                    ClassView { data_tt: true, ..d.0.classes[cid as int] },
                ),
                ..d.0
            }));
        }
        let ghost s2 = self@;
        let dtype = self.next_dtype;
        if self.next_dtype < u64::MAX {
            self.next_dtype = self.next_dtype + 1;
        }
        let reg = Registration {
            token,
            class: cid,
            name: name.to_owned(),
            dtype,
            methods: Vec::new(),
            class_methods: Vec::new(),
        };
        match self.lookup_reg(token) {
            Some(i) => {
                self.registry[i] = reg;
            },
            None => {
                self.registry.push(reg);
            },
        }
        proof {
            assert(self@.registry =~= spec_register(s2, token, name@, cid).registry);
            assert(self@ =~= spec_register(s2, token, name@, cid));
        }
        self.def_method_entry(token, "dup", MethodEntry::Dup, false);
        proof {
            assert(final(self)@ =~= spec_def_class(old(self)@, token, name@));
            if old(self)@.wf() {
                broadcast use vstd::std_specs::vec::axiom_spec_len;

                assert(vstd::std_specs::vec::spec_vec_len(&old(self).classes) == old(
                    self,
                ).classes@.len());
                assert(old(self)@.classes.len() == old(self).classes@.len());
                lemma_def_class_wf(old(self)@, token, name@);
            }
        }
    }

    /// Defines a script method named `name` on the class registered for
    /// `token`; when a script call dispatches to it, the host closure with
    /// handle `method` runs.
    pub fn def_method(&mut self, token: TypeToken, name: &str, method: usize)
        requires
            old(self)@.reg_index(token) is Some,
        ensures
            final(self)@ == spec_def_method(
                old(self)@,
                token,
                name@,
                MethodEntry::Host(method),
                false,
            ),
    {
        self.def_method_entry(token, name, MethodEntry::Host(method), false);
    }

    /// Defines a script class method named `name` on the class registered
    /// for `token`; when a script call dispatches to it, the host closure
    /// with handle `method` runs.
    pub fn def_class_method(&mut self, token: TypeToken, name: &str, method: usize)
        requires
            old(self)@.reg_index(token) is Some,
        ensures
            final(self)@ == spec_def_method(
                old(self)@,
                token,
                name@,
                MethodEntry::Host(method),
                true,
            ),
    {
        self.def_method_entry(token, name, MethodEntry::Host(method), true);
    }

    /// Returns the script class name recorded for host type `token`, or an
    /// `Undef` error if `token` was never registered.
    pub fn class_name(&self, token: TypeToken) -> (r: Result<String, crate::err::MrubyError>)
        ensures
            match self@.reg_index(token) {
                Some(i) => r matches Ok(s) && s@ == self@.registry[i].name,
                None => r matches Err(e) && e@ == crate::err::ErrView::Undef,
            },
    {
        match self.lookup_reg(token) {
            Some(i) => Ok(self.registry[i].name.clone()),
            None => Err(crate::err::MrubyError::Undef),
        }
    }

    /// Defines a dynamic script file named `name` that can be `require`d,
    /// containing host type `T`: the registrations `T::require` describes
    /// run when the module is first required.
    pub fn def_file<T: MrubyFile>(&mut self, name: &str)
        ensures
            exists|ops: Seq<RegOp>|
                final(self)@ == #[trigger] spec_def_file(old(self)@, name@, ops),
    {
        let loader = T::require();
        let ghost lops = loader@;
        self.add_file_loader(name, loader);
        proof {
            assert(final(self)@ == spec_def_file(old(self)@, name@, lops));
        }
    }

    /// Appends one loader under the module named `name`.
    fn add_file_loader(&mut self, name: &str, loader: Loader)
        ensures
            final(self)@ == spec_def_file(old(self)@, name@, loader@),
    {
        match self.lookup_file(name) {
            Some(i) => {
                let ghost pre = self@;
                self.files[i].loaders.push(loader);
                proof {
                    assert(self.files@[i as int]@.loaders =~= pre.files[i as int].loaders.push(
                        loader@,
                    ));
                    assert(final(self)@.files =~= spec_def_file(old(self)@, name@, loader@).files);
                    assert(final(self)@ =~= spec_def_file(old(self)@, name@, loader@));
                }
            },
            None => {
                let mut ls: Vec<Loader> = Vec::new();
                ls.push(loader);
                let entry = FileEntry { name: name.to_owned(), loaders: ls };
                proof {
                    assert(entry@.loaders =~= seq![loader@]);
                }
                self.files.push(entry);
                proof {
                    assert(final(self)@.files =~= spec_def_file(old(self)@, name@, loader@).files);
                    assert(final(self)@ =~= spec_def_file(old(self)@, name@, loader@));
                }
            },
        }
    }

    /// Finds the stored source file named `name`.
    #[verifier::loop_isolation(false)]
    pub(crate) fn lookup_fs(&self, name: &str) -> (r: Option<usize>)
        ensures
            match self@.fs_index(name@) {
                Some(i) => r matches Some(x) && x as int == i && 0 <= i < self@.fs.len(),
                None => r is None,
            },
    {
        let needle = name.to_owned();
        let n = self.fs.len();
        let mut i: usize = 0;
        while i < n
            invariant
                i <= n,
                fs_find(self@.fs, name@, 0) == fs_find(self@.fs, name@, i as int),
            decreases n - i,
        {
            if self.fs[i].name == needle {
                proof {
                    assert(self@.fs[i as int].name == name@);
                }
                return Some(i);
            }
            proof {
                assert(self@.fs[i as int].name != name@);
            }
            i = i + 1;
        }
        None
    }
}

/// Registering a module loader: the loader joins the ordered loader list
/// of the module named `name`, which is created when absent.
pub open spec fn spec_def_file<O>(s: StateView<O>, name: Seq<char>, ops: Seq<RegOp>) -> StateView<
    O,
> {
    match s.file_index(name) {
        Some(i) => StateView {
            files: s.files.update(
                i,
                FileView { loaders: s.files[i].loaders.push(ops), ..s.files[i] },
            ),
            ..s
        },
        None => StateView {
            files: s.files.push(FileView { name: name, loaders: seq![ops] }),
            ..s
        },
    }
}

/// The dynamic script class name of a value: the fixed name of its
/// primitive class, or the class-table name of an instance.
pub open spec fn spec_type_name<O>(s: StateView<O>, v: MrValue) -> Seq<char> {
    match v {
        MrValue::Nil => "NilClass"@,
        MrValue::Bool(b) => if b {
            "TrueClass"@
        } else {
            "FalseClass"@
        },
        MrValue::Fixnum(_) => "Fixnum"@,
        MrValue::Str(_) => "String"@,
        MrValue::Sym(_) => "Symbol"@,
        MrValue::Array(_) => "Array"@,
        MrValue::Instance { class, data } => if class < s.classes.len() {
            s.classes[class as int].name
        } else {
            ""@
        },
    }
}

/// Whether `v` is a foreign-data value: an instance of a class marked as
/// a foreign-data carrier.
pub open spec fn spec_is_data<O>(s: StateView<O>, v: MrValue) -> bool {
    match v {
        MrValue::Instance { class, data } => class < s.classes.len() && s.classes[
            class as int
        ].data_tt,
        _ => false,
    }
}

/// Injecting host object `o` as a value of the class registered for
/// `token`: a fresh heap slot owns `o` with one counted reference, and the
/// value carries the class and the slot.
pub open spec fn spec_obj<O>(s: StateView<O>, token: TypeToken, o: O) -> (StateView<O>, MrValue) {
    match s.reg_index(token) {
        None => (s, MrValue::Nil),
        Some(i) => {
            let reg = s.registry[i];
            (
                StateView {
                    heap: s.heap.push(Slot { obj: Some(o), count: 1u64, dtype: reg.dtype }),
                    ..s
                },
                MrValue::Instance { class: reg.class, data: Some(s.heap.len() as usize) },
            )
        },
    }
}

/// Casting value `v` to the host type registered for `token`: `Undef`
/// without a registration or when the value's dynamic class name differs
/// from the recorded one; a `Cast` error when no live foreign datum of the
/// registration's descriptor is attached; else the host object.
pub open spec fn spec_to_obj<O>(s: StateView<O>, v: MrValue, token: TypeToken) -> Result<
    O,
    crate::err::ErrView,
> {
    match s.reg_index(token) {
        None => Err(crate::err::ErrView::Undef),
        Some(i) => {
            let reg = s.registry[i];
            if spec_type_name(s, v) != reg.name {
                Err(crate::err::ErrView::Undef)
            } else {
                match v {
                    MrValue::Instance { class, data } => match data {
                        Some(slot) => if slot < s.heap.len() && s.heap[slot as int].obj is Some
                            && s.heap[slot as int].dtype == reg.dtype {
                            Ok(s.heap[slot as int].obj->0)
                        } else {
                            Err(crate::err::ErrView::Cast("Data"@))
                        },
                        None => Err(crate::err::ErrView::Cast("Data"@)),
                    },
                    _ => Err(crate::err::ErrView::Cast("Data"@)),
                }
            }
        },
    }
}

/// Duplicating value `v`: a foreign-data value gains one counted
/// reference on its live heap slot, saturating at the count's limit.
pub open spec fn spec_dup<O>(s: StateView<O>, v: MrValue) -> StateView<O> {
    match v {
        MrValue::Instance { class, data } => match data {
            Some(slot) => if slot < s.heap.len() {
                let old_slot = s.heap[slot as int];
                let bumped = if old_slot.count < u64::MAX {
                    (old_slot.count + 1) as u64
                } else {
                    old_slot.count
                };
                StateView {
                    heap: s.heap.update(slot as int, Slot { count: bumped, ..old_slot }),
                    ..s
                }
            } else {
                s
            },
            None => s,
        },
        _ => s,
    }
}

/// Finalizing one script wrapper of value `v`: a foreign-data value
/// releases one counted reference; at zero the host object is dropped and
/// the slot becomes free.
pub open spec fn spec_finalize<O>(s: StateView<O>, v: MrValue) -> StateView<O> {
    match v {
        MrValue::Instance { class, data } => match data {
            Some(slot) => if slot < s.heap.len() {
                let old_slot = s.heap[slot as int];
                if old_slot.count <= 1 {
                    StateView {
                        heap: s.heap.update(
                            slot as int,
                            Slot { obj: None, count: 0u64, dtype: old_slot.dtype },
                        ),
                        ..s
                    }
                } else {
                    StateView {
                        heap: s.heap.update(
                            slot as int,
                            Slot { count: (old_slot.count - 1) as u64, ..old_slot },
                        ),
                        ..s
                    }
                }
            } else {
                s
            },
            None => s,
        },
        _ => s,
    }
}

impl<O> Mruby<O> {
    /// Creates the script value `nil`.
    pub fn nil(&self) -> (r: Value)
        ensures
            r.value == MrValue::Nil,
    {
        Value { value: MrValue::Nil }
    }

    /// Creates a script value containing `true` or `false`.
    pub fn bool(&self, value: bool) -> (r: Value)
        ensures
            r.value == MrValue::Bool(value),
    {
        Value { value: MrValue::Bool(value) }
    }

    /// Creates a script value of class `Fixnum`.
    pub fn fixnum(&self, value: i32) -> (r: Value)
        ensures
            r.value == MrValue::Fixnum(value),
    {
        Value { value: MrValue::Fixnum(value) }
    }

    /// Creates a script value of class `String`.
    pub fn string(&self, value: &str) -> (r: Value)
        ensures
            r.value matches MrValue::Str(s) && s@ == value@,
    {
        Value { value: MrValue::Str(value.to_owned()) }
    }

    /// Creates a script value of class `Symbol`.
    pub fn symbol(&self, value: &str) -> (r: Value)
        ensures
            r.value matches MrValue::Sym(s) && s@ == value@,
    {
        Value { value: MrValue::Sym(value.to_owned()) }
    }

    /// Creates a script value of class `Array` holding `value`'s elements
    /// in order.
    pub fn array(&self, value: Vec<Value>) -> (r: Value)
        ensures
            r.value matches MrValue::Array(items) && items@.len() == value@.len() && (forall|
                i: int,
            |
                0 <= i < value@.len() ==> #[trigger] items@[i] == value@[i].value),
    {
        let mut tmp: Vec<MrValue> = Vec::new();
        let mut rest = value;
        let ghost orig = rest@;
        while rest.len() > 0
            invariant
                rest@ == orig.subrange(0, rest@.len() as int),
                tmp@.len() + rest@.len() == orig.len(),
                forall|i: int|
                    0 <= i < tmp@.len() ==> #[trigger] tmp@[i] == orig[orig.len() - 1 - i].value,
            decreases rest@.len(),
        {
            let ghost pre = rest@;
            let x = match rest.pop() {
                Some(x) => x,
                None => {
                    proof {
                        assert(false);
                    }
                    Value { value: MrValue::Nil }
                },
            };
            proof {
                assert(pre == orig.subrange(0, pre.len() as int));
                assert(x.value == orig[pre.len() - 1].value);
                assert(rest@ =~= orig.subrange(0, rest@.len() as int));
            }
            tmp.push(x.value);
        }
        let mut items: Vec<MrValue> = Vec::new();
        while tmp.len() > 0
            invariant
                tmp@.len() + items@.len() == orig.len(),
                forall|i: int|
                    0 <= i < tmp@.len() ==> #[trigger] tmp@[i] == orig[orig.len() - 1 - i].value,
                forall|i: int| 0 <= i < items@.len() ==> #[trigger] items@[i] == orig[i].value,
            decreases tmp@.len(),
        {
            let x = match tmp.pop() {
                Some(x) => x,
                None => {
                    proof {
                        assert(false);
                    }
                    MrValue::Nil
                },
            };
            items.push(x);
        }
        Value { value: MrValue::Array(items) }
    }

    /// Creates a script value of the class registered for `token`
    /// containing host object `obj`.
    pub fn obj(&mut self, token: TypeToken, obj: O) -> (r: Value)
        requires
            old(self)@.reg_index(token) is Some,
        ensures
            final(self)@ == spec_obj(old(self)@, token, obj).0,
            r.value == spec_obj(old(self)@, token, obj).1,
    {
        let i = self.lookup_reg(token).unwrap();
        let slot = self.heap.len();
        let class = self.registry[i].class;
        let dtype = self.registry[i].dtype;
        self.heap.push(Slot { obj: Some(obj), count: 1, dtype });
        proof {
            assert(final(self)@ =~= spec_obj(old(self)@, token, obj).0);
        }
        Value { value: MrValue::Instance { class, data: Some(slot) } }
    }

    /// Creates a script value of the class registered for `token` from a
    /// host `Option`: the contained object, or `nil` for `None`.
    pub fn option(&mut self, token: TypeToken, obj: Option<O>) -> (r: Value)
        requires
            old(self)@.reg_index(token) is Some,
        ensures
            match obj {
                Some(o) => final(self)@ == spec_obj(old(self)@, token, o).0 && r.value == spec_obj(
                    old(self)@,
                    token,
                    o,
                ).1,
                None => final(self)@ == old(self)@ && r.value == MrValue::Nil,
            },
    {
        match obj {
            Some(o) => self.obj(token, o),
            None => Value { value: MrValue::Nil },
        }
    }

    /// Runs the garbage collector's finalizer for one script wrapper of
    /// `v`: a foreign-data value releases one counted reference on its
    /// heap slot, dropping the host object when the count reaches zero.
    pub fn finalize(&mut self, v: Value)
        ensures
            final(self)@ == spec_finalize(old(self)@, v.value),
    {
        match &v.value {
            MrValue::Instance { class, data: Some(slot) } => {
                let slot = *slot;
                if slot < self.heap.len() {
                    if self.heap[slot].count <= 1 {
                        let dtype = self.heap[slot].dtype;
                        self.heap[slot] = Slot { obj: None, count: 0, dtype };
                    } else {
                        self.heap[slot].count = self.heap[slot].count - 1;
                    }
                    proof {
                        assert(final(self)@ =~= spec_finalize(old(self)@, v.value));
                    }
                }
            },
            _ => {},
        }
    }
}

impl Value {
    /// Initializes a value created as an instance of the class registered
    /// for `token` with host object `obj`, which a fresh heap slot takes
    /// into one counted reference.  A value already initialized is not
    /// accepted again: re-initialization would leak the first object.
    pub fn init<O>(self, mruby: &mut Mruby<O>, token: TypeToken, obj: O) -> (r: Value)
        requires
            old(mruby)@.reg_index(token) matches Some(i) && self.value matches MrValue::Instance {
                class,
                data,
            } && class == old(mruby)@.registry[i].class && data is None,
        ensures
            final(mruby)@ == spec_obj(old(mruby)@, token, obj).0,
            r.value == spec_obj(old(mruby)@, token, obj).1,
    {
        mruby.obj(token, obj)
    }

    /// The name of the value's script class.
    pub fn class_name<'a, O>(&self, mruby: &'a Mruby<O>) -> (r: &'a str)
        ensures
            r@ == spec_type_name(mruby@, self.value),
    {
        match &self.value {
            MrValue::Nil => "NilClass",
            MrValue::Bool(b) => if *b {
                "TrueClass"
            } else {
                "FalseClass"
            },
            MrValue::Fixnum(_) => "Fixnum",
            MrValue::Str(_) => "String",
            MrValue::Sym(_) => "Symbol",
            MrValue::Array(_) => "Array",
            MrValue::Instance { class, data } => {
                if *class < mruby.classes.len() {
                    mruby.classes[*class].name.as_str()
                } else {
                    ""
                }
            },
        }
    }

    /// Casts a foreign-data value back to a shared reference to the host
    /// object of the type registered for `token`.  Fails with `Undef` if
    /// `token` was never registered or the value's dynamic class name
    /// disagrees with the recorded one, and with a `Cast` error if no live
    /// foreign datum of the registration's descriptor is attached.
    pub fn to_obj<'a, O>(&self, mruby: &'a Mruby<O>, token: TypeToken) -> (r: Result<
        &'a O,
        crate::err::MrubyError,
    >)
        ensures
            match spec_to_obj(mruby@, self.value, token) {
                Ok(o) => r matches Ok(x) && *x == o,
                Err(e) => r matches Err(x) && x@ == e,
            },
    {
        let i = match mruby.lookup_reg(token) {
            Some(i) => i,
            None => {
                return Err(crate::err::MrubyError::Undef);
            },
        };
        let tn = self.class_name(mruby);
        if !(tn.to_owned() == mruby.registry[i].name) {
            return Err(crate::err::MrubyError::Undef);
        }
        match &self.value {
            MrValue::Instance { class, data: Some(slot) } => {
                let slot = *slot;
                if slot < mruby.heap.len() && mruby.heap[slot].dtype == mruby.registry[i].dtype {
                    match &mruby.heap[slot].obj {
                        Some(o) => Ok(o),
                        None => Err(crate::err::MrubyError::Cast(String::from_str("Data"))),
                    }
                } else {
                    Err(crate::err::MrubyError::Cast(String::from_str("Data")))
                }
            },
            _ => Err(crate::err::MrubyError::Cast(String::from_str("Data"))),
        }
    }

    /// Casts to the host type registered for `token` as `to_obj` does, but
    /// a value that is no foreign-data value becomes `None` instead of an
    /// error.
    pub fn to_option<'a, O>(&self, mruby: &'a Mruby<O>, token: TypeToken) -> (r: Result<
        Option<&'a O>,
        crate::err::MrubyError,
    >)
        ensures
            if spec_is_data(mruby@, self.value) {
                match spec_to_obj(mruby@, self.value, token) {
                    Ok(o) => r matches Ok(Some(x)) && *x == o,
                    Err(e) => r matches Err(x) && x@ == e,
                }
            } else {
                r matches Ok(x) && x is None
            },
    {
        let is_data = match &self.value {
            MrValue::Instance { class, data } => *class < mruby.classes.len()
                && mruby.classes[*class].data_tt,
            _ => false,
        };
        if is_data {
            match self.to_obj(mruby, token) {
                Ok(o) => Ok(Some(o)),
                Err(e) => Err(e),
            }
        } else {
            Ok(None)
        }
    }

    /// Duplicates the value.  A foreign-data value gains one counted
    /// reference on its heap slot, so the two wrappers may be finalized
    /// independently without double-freeing the host object.
    pub fn dup<O>(&self, mruby: &mut Mruby<O>) -> (r: Value)
        ensures
            final(mruby)@ == spec_dup(old(mruby)@, self.value),
            crate::value::mr_equiv(r.value, self.value),
            self.value matches MrValue::Instance { class, data } ==> r.value == self.value,
    {
        match &self.value {
            MrValue::Instance { class, data } => {
                match data {
                    Some(slot) => {
                        let slot = *slot;
                        if slot < mruby.heap.len() {
                            if mruby.heap[slot].count < u64::MAX {
                                mruby.heap[slot].count = mruby.heap[slot].count + 1;
                            }
                            proof {
                                assert(final(mruby)@ =~= spec_dup(old(mruby)@, self.value));
                            }
                        }
                    },
                    None => {},
                }
                Value { value: MrValue::Instance { class: *class, data: *data } }
            },
            _ => Value { value: crate::value::mr_clone(&self.value) },
        }
    }
}

} // verus!

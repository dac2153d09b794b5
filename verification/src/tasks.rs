//! What the `#[tasks::declare]` attribute checks of the module it is applied to: private
//! functions of signature `fn() -> T` whose bodies may start with `static mut` locals, private
//! `static mut` items shared by them, `use` items, and nothing else.
use vstd::prelude::*;

use crate::text::chars_of;

verus! {

/// Why a task module is refused.
#[derive(Clone, Copy, PartialEq, Eq, Debug, Structural)]
pub enum TaskError {
    /// The attribute was given arguments.
    Arguments,
    /// The module is public.
    PublicModule,
    /// The module has attributes.
    ModuleAttributes,
    /// The module is not inline.
    NotInline,
    /// A function has attributes.
    FunctionAttributes,
    /// A function is public.
    PublicFunction,
    /// A function's signature is not `fn() -> T`.
    Signature,
    /// The module holds an item other than a function, a static or a `use`.
    OtherItem,
    /// An `#[uninit]` attribute without `(unsafe)`.
    UninitWithoutUnsafe,
    /// A static has attributes other than `#[uninit(unsafe)]`.
    StaticAttributes,
    /// A static is public.
    PublicStatic,
    /// A static is not mutable.
    ImmutableStatic,
}

/// An attribute: the identifier of its path, if the path is one, and its tokens.
pub struct Attribute {
    /// Identifier of the path
    pub ident: Option<String>,
    /// The tokens after the path
    pub tokens: String,
}

/// A `static` item.
pub struct StaticItem {
    /// Name
    pub name: String,
    /// Attributes
    pub attrs: Vec<Attribute>,
    /// Whether it has no visibility qualifier
    pub private: bool,
    /// Whether it is `mut`
    pub mutable: bool,
}

/// A statement of a function body, as the attribute sees it.
pub enum Statement {
    /// A `static` item
    Static(StaticItem),
    /// Anything else
    Other,
}

/// A function item.
pub struct FnItem {
    /// Name
    pub name: String,
    /// Whether it has attributes
    pub has_attrs: bool,
    /// Whether it has no visibility qualifier
    pub private: bool,
    /// Whether its signature is `fn() -> T`: not const, async, unsafe or extern, no generics,
    /// no where clause, no parameters
    pub plain_signature: bool,
    /// Statements of its body
    pub body: Vec<Statement>,
}

/// An item of the task module.
pub enum Item {
    /// A function
    Fn(FnItem),
    /// A `static` item
    Static(StaticItem),
    /// A `use` item
    Use,
    /// Anything else
    Other,
}

/// The module that the attribute is applied to.
pub struct Module {
    /// Whether it has no visibility qualifier
    pub private: bool,
    /// Whether it has attributes
    pub has_attrs: bool,
    /// Its items, if it is inline
    pub content: Option<Vec<Item>>,
}

/// A checked `static`: its name and whether it goes to the `.uninit` section.
pub struct Static {
    /// Name
    pub name: String,
    /// Whether it is left uninitialized
    pub uninit: bool,
}

/// A checked task: its name, whether it is the `init` task, its `static mut` locals and the
/// index of the first statement after them.
pub struct Task {
    /// Name
    pub name: String,
    /// Whether it is `init`
    pub is_init: bool,
    /// The leading `static` statements
    pub locals: Vec<Static>,
    /// Index of the first statement that is not a leading `static`
    pub body_start: usize,
}

/// What the attribute keeps of a module.
pub struct TaskModule {
    /// The tasks, in order
    pub tasks: Vec<Task>,
    /// The shared statics, in order
    pub statics: Vec<Static>,
    /// Number of `use` items
    pub uses: usize,
}

/// Index of the first attribute named `uninit`.
pub open spec fn uninit_position(attrs: Seq<Attribute>) -> Option<int>
    decreases attrs.len(),
{
    if attrs.len() == 0 {
        None
    } else {
        match uninit_position(attrs.drop_last()) {
            Some(k) => Some(k),
            None => if attrs.last().ident matches Some(i) && i@ == "uninit"@ {
                Some(attrs.len() - 1)
            } else {
                None
            },
        }
    }
}

/// What the checks make of a `static`: whether it is left uninitialized.
pub open spec fn static_check(s: StaticItem) -> Result<bool, TaskError> {
    let attrs = s.attrs@;
    let (uninit, rest) = match uninit_position(attrs) {
        Some(k) => if attrs[k].tokens@ == "(unsafe)"@ {
            (Some(true), (attrs.len() - 1) as nat)
        } else {
            (None, attrs.len())
        },
        None => (Some(false), attrs.len()),
    };
    match uninit {
        None => Err(TaskError::UninitWithoutUnsafe),
        Some(u) => if rest != 0 {
            Err(TaskError::StaticAttributes)
        } else if !s.private {
            Err(TaskError::PublicStatic)
        } else if !s.mutable {
            Err(TaskError::ImmutableStatic)
        } else {
            Ok(u)
        },
    }
}

fn is_text(s: &String, t: &str) -> (r: bool)
    ensures
        r == (s@ == t@),
{
    let a = chars_of(s.as_str());
    let b = chars_of(t);
    if a.len() != b.len() {
        return false;
    }
    let mut i: usize = 0;
    while i < a.len()
        invariant
            i <= a@.len(),
            a@.len() == b@.len(),
            a@ == s@,
            b@ == t@,
            forall|k: int| 0 <= k < i ==> a@[k] == b@[k],
        decreases a.len() - i,
    {
        if a[i] != b[i] {
            assert(s@[i as int] != t@[i as int]);
            return false;
        }
        i = i + 1;
    }
    assert(a@ =~= b@);
    true
}

/// Checks a `static`: at most `#[uninit(unsafe)]` as attribute, private and mutable; tells
/// whether it is left uninitialized.
pub fn verify(s: &StaticItem) -> (r: Result<bool, TaskError>)
    ensures
        r == static_check(*s),
{
    let mut pos: Option<usize> = None;
    let mut i: usize = 0;
    assert(s.attrs@.take(0) =~= Seq::<Attribute>::empty());
    while i < s.attrs.len()
        invariant
            i <= s.attrs@.len(),
            pos == (match uninit_position(s.attrs@.take(i as int)) {
                Some(k) => Some(k as usize),
                None => None::<usize>,
            }),
            uninit_position(s.attrs@.take(i as int)) matches Some(k) ==> 0 <= k < i,
        decreases s.attrs.len() - i,
    {
        assert(s.attrs@.take(i + 1).drop_last() =~= s.attrs@.take(i as int));
        assert(s.attrs@.take(i + 1).last() == s.attrs@[i as int]);
        if pos.is_none() {
            let named = match &s.attrs[i].ident {
                Some(id) => is_text(id, "uninit"),
                None => false,
            };
            if named {
                pos = Some(i);
            }
        }
        i = i + 1;
    }
    assert(s.attrs@.take(i as int) =~= s.attrs@);
    let mut rest = s.attrs.len();
    let mut uninit = false;
    match pos {
        Some(k) => {
            if is_text(&s.attrs[k].tokens, "(unsafe)") {
                rest = rest - 1;
                uninit = true;
            } else {
                return Err(TaskError::UninitWithoutUnsafe);
            }
        },
        None => {},
    }
    if rest != 0 {
        Err(TaskError::StaticAttributes)
    } else if !s.private {
        Err(TaskError::PublicStatic)
    } else if !s.mutable {
        Err(TaskError::ImmutableStatic)
    } else {
        Ok(uninit)
    }
}

/// A checked `static`, as text and flag.
pub open spec fn static_view(s: Static) -> (Seq<char>, bool) {
    (s.name@, s.uninit)
}

/// The checked statics, as text and flags.
pub open spec fn statics_view(v: Seq<Static>) -> Seq<(Seq<char>, bool)> {
    Seq::new(v.len(), |i: int| static_view(v[i]))
}

/// The leading `static` statements of `body` from `i` on, checked, and the index of the first
/// other statement.
pub open spec fn split_from(body: Seq<Statement>, i: int) -> Result<(Seq<(Seq<char>, bool)>, int), TaskError>
    decreases body.len() - i,
{
    if i < 0 || i >= body.len() {
        Ok((Seq::empty(), i))
    } else {
        match body[i] {
            Statement::Static(st) => match static_check(st) {
                Err(e) => Err(e),
                Ok(u) => match split_from(body, i + 1) {
                    Err(e) => Err(e),
                    Ok((ls, k)) => Ok((seq![(st.name@, u)] + ls, k)),
                },
            },
            Statement::Other => Ok((Seq::empty(), i)),
        }
    }
}

/// Splits a function body into its leading `static` locals, checked, and the index of the
/// statement where the rest starts.
pub fn split(body: &Vec<Statement>) -> (r: Result<(Vec<Static>, usize), TaskError>)
    ensures
        match r {
            Ok((ls, k)) => split_from(body@, 0) == Ok::<(Seq<(Seq<char>, bool)>, int), TaskError>((statics_view(ls@), k as int)),
            Err(e) => split_from(body@, 0) == Err::<(Seq<(Seq<char>, bool)>, int), TaskError>(e),
        },
{
    let mut locals: Vec<Static> = Vec::new();
    let mut i: usize = 0;
    assert(statics_view(locals@) + Seq::<(Seq<char>, bool)>::empty() =~= Seq::<(Seq<char>, bool)>::empty());
    while i < body.len()
        invariant
            i <= body@.len(),
            split_from(body@, 0) == (match split_from(body@, i as int) {
                Ok((ls, k)) => Ok((statics_view(locals@) + ls, k)),
                Err(e) => Err::<(Seq<(Seq<char>, bool)>, int), TaskError>(e),
            }),
        decreases body.len() - i,
    {
        match &body[i] {
            Statement::Static(st) => {
                match verify(st) {
                    Err(e) => return Err(e),
                    Ok(u) => {
                        let ghost before = statics_view(locals@);
                        locals.push(Static { name: st.name.clone(), uninit: u });
                        proof {
                            assert(statics_view(locals@) =~= before.push((st.name@, u)));
                            match split_from(body@, i + 1) {
                                Ok((ls, k)) => {
                                    assert(before + (seq![(st.name@, u)] + ls) =~= statics_view(locals@) + ls);
                                },
                                Err(e) => {},
                            }
                        }
                        i = i + 1;
                    },
                }
            },
            Statement::Other => {
                assert(statics_view(locals@) + Seq::<(Seq<char>, bool)>::empty() =~= statics_view(locals@));
                return Ok((locals, i));
            },
        }
    }
    assert(statics_view(locals@) + Seq::<(Seq<char>, bool)>::empty() =~= statics_view(locals@));
    Ok((locals, i))
}

/// A checked task, as text and values.
pub open spec fn task_view(t: Task) -> (Seq<char>, bool, Seq<(Seq<char>, bool)>, int) {
    (t.name@, t.is_init, statics_view(t.locals@), t.body_start as int)
}

/// The checked tasks, as text and values.
pub open spec fn tasks_view(v: Seq<Task>) -> Seq<(Seq<char>, bool, Seq<(Seq<char>, bool)>, int)> {
    Seq::new(v.len(), |i: int| task_view(v[i]))
}

/// What the checks make of the items of a task module from `i` on: the tasks, the shared
/// statics and the number of `use` items; the first item that fails decides the error.
pub open spec fn items_from(items: Seq<Item>, i: int) -> Result<(Seq<(Seq<char>, bool, Seq<(Seq<char>, bool)>, int)>, Seq<(Seq<char>, bool)>, nat), TaskError>
    decreases items.len() - i,
{
    if i < 0 || i >= items.len() {
        Ok((Seq::empty(), Seq::empty(), 0))
    } else {
        let head: Result<(Seq<(Seq<char>, bool, Seq<(Seq<char>, bool)>, int)>, Seq<(Seq<char>, bool)>, nat), TaskError> = match items[i] {
            Item::Fn(f) => if f.has_attrs {
                Err(TaskError::FunctionAttributes)
            } else if !f.private {
                Err(TaskError::PublicFunction)
            } else if !f.plain_signature {
                Err(TaskError::Signature)
            } else {
                match split_from(f.body@, 0) {
                    Err(e) => Err(e),
                    Ok((ls, k)) => Ok((seq![(f.name@, f.name@ == "init"@, ls, k)], Seq::empty(), 0)),
                }
            },
            Item::Static(st) => match static_check(st) {
                Err(e) => Err(e),
                Ok(u) => Ok((Seq::empty(), seq![(st.name@, u)], 0)),
            },
            Item::Use => Ok((Seq::empty(), Seq::empty(), 1)),
            Item::Other => Err(TaskError::OtherItem),
        };
        match head {
            Err(e) => Err(e),
            Ok((t, s, u)) => match items_from(items, i + 1) {
                Err(e) => Err(e),
                Ok((ts, ss, us)) => Ok((t + ts, s + ss, u + us)),
            },
        }
    }
}

/// What the attribute makes of a module: `args_empty` tells whether it was given no arguments.
pub open spec fn declare_spec(args_empty: bool, m: Module) -> Result<(Seq<(Seq<char>, bool, Seq<(Seq<char>, bool)>, int)>, Seq<(Seq<char>, bool)>, nat), TaskError> {
    if !args_empty {
        Err(TaskError::Arguments)
    } else if !m.private {
        Err(TaskError::PublicModule)
    } else if m.has_attrs {
        Err(TaskError::ModuleAttributes)
    } else {
        match m.content {
            None => Err(TaskError::NotInline),
            Some(items) => items_from(items@, 0),
        }
    }
}

/// Checks the module that `#[tasks::declare]` is applied to, `args_empty` telling whether the
/// attribute was given no arguments, and gives its tasks, statics and `use` items.
pub fn declare(args_empty: bool, m: &Module) -> (r: Result<TaskModule, TaskError>)
    ensures
        match r {
            Ok(tm) => declare_spec(args_empty, *m) == Ok::<(Seq<(Seq<char>, bool, Seq<(Seq<char>, bool)>, int)>, Seq<(Seq<char>, bool)>, nat), TaskError>(
                (tasks_view(tm.tasks@), statics_view(tm.statics@), tm.uses as nat)),
            Err(e) => declare_spec(args_empty, *m) == Err::<(Seq<(Seq<char>, bool, Seq<(Seq<char>, bool)>, int)>, Seq<(Seq<char>, bool)>, nat), TaskError>(e),
        },
{
    if !args_empty {
        return Err(TaskError::Arguments);
    }
    if !m.private {
        return Err(TaskError::PublicModule);
    }
    if m.has_attrs {
        return Err(TaskError::ModuleAttributes);
    }
    let items = match &m.content {
        Some(items) => items,
        None => return Err(TaskError::NotInline),
    };
    let mut tasks: Vec<Task> = Vec::new();
    let mut statics: Vec<Static> = Vec::new();
    let mut uses: usize = 0;
    let mut i: usize = 0;
    proof {
        match items_from(items@, 0) {
            Ok((ts, ss, us)) => {
                assert(tasks_view(tasks@) + ts =~= ts);
                assert(statics_view(statics@) + ss =~= ss);
            },
            Err(e) => {},
        }
    }
    while i < items.len()
        invariant
            i <= items@.len(),
            uses <= i,
            m.content == Some(*items),
            declare_spec(args_empty, *m) == items_from(items@, 0),
            items_from(items@, 0) == (match items_from(items@, i as int) {
                Ok((ts, ss, us)) => Ok((tasks_view(tasks@) + ts, statics_view(statics@) + ss, (uses + us) as nat)),
                Err(e) => Err::<(Seq<(Seq<char>, bool, Seq<(Seq<char>, bool)>, int)>, Seq<(Seq<char>, bool)>, nat), TaskError>(e),
            }),
        decreases items.len() - i,
    {
        let ghost tv = tasks_view(tasks@);
        let ghost sv = statics_view(statics@);
        match &items[i] {
            Item::Fn(f) => {
                if f.has_attrs {
                    return Err(TaskError::FunctionAttributes);
                }
                if !f.private {
                    return Err(TaskError::PublicFunction);
                }
                if !f.plain_signature {
                    return Err(TaskError::Signature);
                }
                match split(&f.body) {
                    Err(e) => return Err(e),
                    Ok((locals, k)) => {
                        let is_init = is_text(&f.name, "init");
                        let t = Task { name: f.name.clone(), is_init, locals, body_start: k };
                        tasks.push(t);
                        proof {
                            assert(tasks_view(tasks@) =~= tv.push(task_view(t)));
                            match items_from(items@, i + 1) {
                                Ok((ts, ss, us)) => {
                                    assert(tv + (seq![task_view(t)] + ts) =~= tasks_view(tasks@) + ts);
                                    assert(sv + (Seq::<(Seq<char>, bool)>::empty() + ss) =~= sv + ss);
                                },
                                Err(e) => {},
                            }
                        }
                    },
                }
            },
            Item::Static(st) => {
                match verify(st) {
                    Err(e) => return Err(e),
                    Ok(u) => {
                        statics.push(Static { name: st.name.clone(), uninit: u });
                        proof {
                            assert(statics_view(statics@) =~= sv.push((st.name@, u)));
                            match items_from(items@, i + 1) {
                                Ok((ts, ss, us)) => {
                                    assert(sv + (seq![(st.name@, u)] + ss) =~= statics_view(statics@) + ss);
                                    assert(tv + (Seq::<(Seq<char>, bool, Seq<(Seq<char>, bool)>, int)>::empty() + ts) =~= tv + ts);
                                },
                                Err(e) => {},
                            }
                        }
                    },
                }
            },
            Item::Use => {
                proof {
                    match items_from(items@, i + 1) {
                        Ok((ts, ss, us)) => {
                            assert(tv + (Seq::<(Seq<char>, bool, Seq<(Seq<char>, bool)>, int)>::empty() + ts) =~= tv + ts);
                            assert(sv + (Seq::<(Seq<char>, bool)>::empty() + ss) =~= sv + ss);
                        },
                        Err(e) => {},
                    }
                }
                uses = uses + 1;
            },
            Item::Other => return Err(TaskError::OtherItem),
        }
        i = i + 1;
    }
    proof {
        assert(tasks_view(tasks@) + Seq::<(Seq<char>, bool, Seq<(Seq<char>, bool)>, int)>::empty() =~= tasks_view(tasks@));
        assert(statics_view(statics@) + Seq::<(Seq<char>, bool)>::empty() =~= statics_view(statics@));
    }
    Ok(TaskModule { tasks, statics, uses })
}

} // verus!

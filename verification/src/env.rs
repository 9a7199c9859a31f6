//! Lexical environments: an arena of binding frames.
//!
//! A frame holds name/value bindings plus the handle of its parent frame;
//! parents never point at children, so the arena is a tree of frames with
//! back-pointers used only for lookup.  A child frame is created for every
//! function application; closures keep their defining frame alive simply
//! by naming its handle.
//!
//! Mutation discipline: `define` inserts or overwrites in exactly the
//! frame it is given, `set` overwrites in the nearest enclosing frame that
//! already binds the name, and nothing else ever edits a frame.

use vstd::prelude::*;

use crate::tokens::str_eq;
use crate::values::{ErrModel, SteelErr, SteelVal, ValModel};

verus! {

broadcast use vstd::std_specs::vec::group_vec_axioms;

/// One mutable binding frame: parallel name/value columns and an optional
/// parent handle.
pub struct Frame {
    pub parent: Option<usize>,
    pub names: Vec<String>,
    pub vals: Vec<SteelVal>,
}

/// Mathematical image of a frame.
pub struct FrameModel {
    pub parent: Option<int>,
    pub names: Seq<Seq<char>>,
    pub vals: Seq<ValModel>,
}

impl View for Frame {
    type V = FrameModel;

    open spec fn view(&self) -> FrameModel {
        FrameModel {
            parent: match self.parent {
                Some(p) => Some(p as int),
                None => None,
            },
            names: self.names.deep_view(),
            vals: Seq::new(
                self.vals@.len(),
                |i: int|
                    if 0 <= i < self.vals@.len() {
                        self.vals@[i]@
                    } else {
                        ValModel::Void
                    },
            ),
        }
    }
}

/// Index of the first occurrence of `name` in the column of names.
pub open spec fn find_name(names: Seq<Seq<char>>, name: Seq<char>) -> Option<int>
    decreases names.len(),
{
    if names.len() == 0 {
        None
    } else if names[0] == name {
        Some(0)
    } else {
        match find_name(names.drop_first(), name) {
            Some(i) => Some(i + 1),
            None => None,
        }
    }
}

/// What `find_name` returns and why: the hit is the first one.
pub proof fn lemma_find_name_props(names: Seq<Seq<char>>, name: Seq<char>)
    ensures
        match find_name(names, name) {
            Some(i) => 0 <= i < names.len() && names[i] == name && (forall|j: int|
                0 <= j < i ==> names[j] != name),
            None => forall|j: int| 0 <= j < names.len() ==> names[j] != name,
        },
    decreases names.len(),
{
    if names.len() > 0 && names[0] != name {
        lemma_find_name_props(names.drop_first(), name);
        assert forall|j: int| 1 <= j < names.len() implies names.drop_first()[j - 1]
            == names[j] by {}
    }
}

/// A scan that saw no hit before `i` and a hit at `i` pins `find_name`.
pub proof fn lemma_find_name_at(names: Seq<Seq<char>>, name: Seq<char>, i: int)
    requires
        0 <= i < names.len(),
        names[i] == name,
        forall|j: int| 0 <= j < i ==> names[j] != name,
    ensures
        find_name(names, name) == Some(i),
    decreases i,
{
    if i > 0 {
        lemma_find_name_at(names.drop_first(), name, i - 1);
    }
}

/// A frame is well formed when its columns line up and no name repeats.
pub open spec fn frame_wf(f: FrameModel) -> bool {
    &&& f.names.len() == f.vals.len()
    &&& forall|i: int, j: int|
        0 <= i < j < f.names.len() ==> f.names[i] != f.names[j]
}

/// The arena is well formed when every frame is and every parent handle
/// points strictly earlier, so parent chains always reach a root.
pub open spec fn frames_wf(fs: Seq<FrameModel>) -> bool {
    forall|k: int|
        0 <= k < fs.len() ==> frame_wf(#[trigger] fs[k]) && (fs[k].parent matches Some(p) ==> 0
            <= p < k)
}

/// Value bound to `name` in one frame, if any.
pub open spec fn frame_lookup(f: FrameModel, name: Seq<char>) -> Option<ValModel> {
    match find_name(f.names, name) {
        Some(i) => if 0 <= i < f.vals.len() {
            Some(f.vals[i])
        } else {
            None
        },
        None => None,
    }
}

/// Walk from the frame `env` towards the root; the first frame that binds
/// `name` decides, and falling off the chain is an unbound-identifier
/// failure.
pub open spec fn lookup_model(fs: Seq<FrameModel>, env: int, name: Seq<char>) -> Result<
    ValModel,
    ErrModel,
>
    decreases env,
{
    if !(0 <= env < fs.len()) {
        Err(ErrModel::Unbound(name))
    } else {
        match frame_lookup(fs[env], name) {
            Some(v) => Ok(v),
            None => match fs[env].parent {
                Some(p) => if 0 <= p < env {
                    lookup_model(fs, p, name)
                } else {
                    Err(ErrModel::Unbound(name))
                },
                None => Err(ErrModel::Unbound(name)),
            },
        }
    }
}

/// One frame after `define`: overwrite the binding if the name is already
/// present, append it otherwise.
pub open spec fn frame_define(f: FrameModel, name: Seq<char>, v: ValModel) -> FrameModel {
    match find_name(f.names, name) {
        Some(i) => FrameModel { vals: f.vals.update(i, v), ..f },
        None => FrameModel { names: f.names.push(name), vals: f.vals.push(v), ..f },
    }
}

/// The arena after `define` in the frame `env`: only that frame changes.
pub open spec fn define_model(fs: Seq<FrameModel>, env: int, name: Seq<char>, v: ValModel) -> Seq<
    FrameModel,
> {
    if 0 <= env < fs.len() {
        fs.update(env, frame_define(fs[env], name, v))
    } else {
        fs
    }
}

/// The arena and outcome after `set`: the nearest enclosing frame that
/// already binds `name` is overwritten; an unbound name changes nothing
/// and fails.
pub open spec fn set_model(fs: Seq<FrameModel>, env: int, name: Seq<char>, v: ValModel) -> (Seq<
    FrameModel,
>, Result<ValModel, ErrModel>)
    decreases env,
{
    if !(0 <= env < fs.len()) {
        (fs, Err(ErrModel::Unbound(name)))
    } else {
        match find_name(fs[env].names, name) {
            Some(i) => (
                fs.update(
                    env,
                    FrameModel { vals: fs[env].vals.update(i, v), ..fs[env] },
                ),
                Ok(ValModel::Void),
            ),
            None => match fs[env].parent {
                Some(p) => if 0 <= p < env {
                    set_model(fs, p, name, v)
                } else {
                    (fs, Err(ErrModel::Unbound(name)))
                },
                None => (fs, Err(ErrModel::Unbound(name))),
            },
        }
    }
}

/// Finds the first binding of `name` in one frame's name column.
fn find_in_frame(names: &Vec<String>, name: &str) -> (r: Option<usize>)
    ensures
        match r {
            Some(i) => find_name(names.deep_view(), name@) == Some(i as int),
            None => find_name(names.deep_view(), name@) is None,
        },
{
    let ghost m = names.deep_view();
    let n = names.len();
    let mut i: usize = 0;
    while i < n
        invariant
            n == names.len(),
            m == names.deep_view(),
            0 <= i <= n,
            forall|j: int| 0 <= j < i ==> m[j] != name@,
        decreases n - i,
    {
        if str_eq(names[i].as_str(), name) {
            proof {
                lemma_find_name_at(m, name@, i as int);
            }
            return Some(i);
        }
        i += 1;
    }
    proof {
        lemma_find_name_props(m, name@);
    }
    None
}

/// The arena of binding frames; frame handles are indices into it.
pub struct Frames {
    pub frames: Vec<Frame>,
}

impl View for Frames {
    type V = Seq<FrameModel>;

    open spec fn view(&self) -> Seq<FrameModel> {
        Seq::new(
            self.frames@.len(),
            |i: int|
                if 0 <= i < self.frames@.len() {
                    self.frames@[i]@
                } else {
                    FrameModel { parent: None, names: Seq::empty(), vals: Seq::empty() }
                },
        )
    }
}

impl Frames {
    pub open spec fn wf(&self) -> bool {
        frames_wf(self@)
    }

    /// A fresh arena holding exactly one empty root frame, handle `0`.
    pub fn new() -> (r: Frames)
        ensures
            r.wf(),
            r@.len() == 1,
            r@[0] == (FrameModel { parent: None, names: Seq::<Seq<char>>::empty(), vals: Seq::<
                ValModel,
            >::empty() }),
    {
        let root = Frame { parent: None, names: Vec::new(), vals: Vec::new() };
        let frames = vec![root];
        let r = Frames { frames };
        proof {
            assert(r@[0].names =~= Seq::<Seq<char>>::empty());
            assert(r@[0].vals =~= Seq::<ValModel>::empty());
        }
        r
    }

    /// Creates a fresh empty frame whose parent is `parent` and returns its
    /// handle; every function application goes through here.
    pub fn new_child(&mut self, parent: usize) -> (h: usize)
        requires
            old(self).wf(),
            parent < old(self)@.len(),
        ensures
            final(self).wf(),
            h as int == old(self)@.len(),
            final(self)@ == old(self)@.push(
                FrameModel {
                    parent: Some(parent as int),
                    names: Seq::<Seq<char>>::empty(),
                    vals: Seq::<ValModel>::empty(),
                },
            ),
    {
        let h = self.frames.len();
        let f = Frame { parent: Some(parent), names: Vec::new(), vals: Vec::new() };
        self.frames.push(f);
        proof {
            let target = old(self)@.push(
                FrameModel {
                    parent: Some(parent as int),
                    names: Seq::<Seq<char>>::empty(),
                    vals: Seq::<ValModel>::empty(),
                },
            );
            assert(self@[h as int].names =~= Seq::<Seq<char>>::empty());
            assert(self@[h as int].vals =~= Seq::<ValModel>::empty());
            assert(self@ =~= target);
        }
        h
    }

    /// Looks `name` up along the parent chain starting at `env`.
    pub fn lookup(&self, env: usize, name: &str) -> (r: Result<SteelVal, SteelErr>)
        requires
            self.wf(),
            env < self@.len(),
        ensures
            crate::values::res_model(r) == lookup_model(self@, env as int, name@),
    {
        let mut cur = env;
        loop
            invariant
                self.wf(),
                cur < self@.len(),
                lookup_model(self@, env as int, name@) == lookup_model(self@, cur as int, name@),
            decreases cur,
        {
            let f = &self.frames[cur];
            match find_in_frame(&f.names, name) {
                Some(i) => {
                    proof {
                        lemma_find_name_props(self@[cur as int].names, name@);
                    }
                    return Ok(f.vals[i].clone_val());
                },
                None => {
                    match f.parent {
                        Some(p) => {
                            cur = p;
                        },
                        None => {
                            return Err(SteelErr::UnboundIdentifier(name.to_owned()));
                        },
                    }
                },
            }
        }
    }

    /// Inserts or overwrites `name` in exactly the frame `env`.
    pub fn define(&mut self, env: usize, name: String, val: SteelVal)
        requires
            old(self).wf(),
            env < old(self)@.len(),
        ensures
            final(self).wf(),
            final(self)@ == define_model(old(self)@, env as int, name@, val@),
    {
        let ghost pre = self@;
        let f = &mut self.frames[env];
        let ghost fpre = f@;
        match find_in_frame(&f.names, name.as_str()) {
            Some(i) => {
                proof {
                    lemma_find_name_props(fpre.names, name@);
                }
                f.vals[i] = val;
                proof {
                    assert(f@.names =~= fpre.names);
                    assert(f@.vals =~= fpre.vals.update(
                        find_name(fpre.names, name@)->Some_0,
                        val@,
                    ));
                    assert(f@ =~= frame_define(fpre, name@, val@));
                    assert(self@ =~= define_model(pre, env as int, name@, val@));
                }
            },
            None => {
                proof {
                    lemma_find_name_props(fpre.names, name@);
                }
                f.names.push(name);
                f.vals.push(val);
                proof {
                    assert(f@.names =~= fpre.names.push(name@));
                    assert(f@.vals =~= fpre.vals.push(val@));
                    assert(f@ =~= frame_define(fpre, name@, val@));
                    assert(self@ =~= define_model(pre, env as int, name@, val@));
                }
            },
        }
    }

    /// Overwrites the nearest enclosing binding of `name`, starting at
    /// `env`; fails without touching anything when no frame binds it.
    pub fn set(&mut self, env: usize, name: String, val: SteelVal) -> (r: Result<
        SteelVal,
        SteelErr,
    >)
        requires
            old(self).wf(),
            env < old(self)@.len(),
        ensures
            final(self).wf(),
            final(self)@.len() == old(self)@.len(),
            (final(self)@, crate::values::res_model(r)) == set_model(
                old(self)@,
                env as int,
                name@,
                val@,
            ),
    {
        let ghost pre = self@;
        let mut cur = env;
        loop
            invariant
                self.wf(),
                pre == old(self)@,
                self@ == pre,
                cur < self@.len(),
                set_model(pre, env as int, name@, val@) == set_model(pre, cur as int, name@, val@),
            decreases cur,
        {
            let found = find_in_frame(&self.frames[cur].names, name.as_str());
            match found {
                Some(i) => {
                    proof {
                        lemma_find_name_props(pre[cur as int].names, name@);
                    }
                    let f = &mut self.frames[cur];
                    let ghost fpre = f@;
                    f.vals[i] = val;
                    proof {
                        assert(f@.names =~= fpre.names);
                        assert(f@.vals =~= fpre.vals.update(i as int, val@));
                        assert(f@ =~= (FrameModel { vals: fpre.vals.update(i as int, val@), ..fpre
                        }));
                        assert(self@ =~= pre.update(
                            cur as int,
                            FrameModel { vals: pre[cur as int].vals.update(i as int, val@), ..pre[
                                cur as int] },
                        ));
                    }
                    return Ok(SteelVal::Void);
                },
                None => {
                    match self.frames[cur].parent {
                        Some(p) => {
                            cur = p;
                        },
                        None => {
                            return Err(SteelErr::UnboundIdentifier(name.clone()));
                        },
                    }
                },
            }
        }
    }

    /// Removes every binding of the frame `env`; its parent link and all
    /// other frames are untouched.
    pub fn clear(&mut self, env: usize)
        requires
            old(self).wf(),
            env < old(self)@.len(),
        ensures
            final(self).wf(),
            final(self)@ == old(self)@.update(
                env as int,
                FrameModel {
                    parent: old(self)@[env as int].parent,
                    names: Seq::<Seq<char>>::empty(),
                    vals: Seq::<ValModel>::empty(),
                },
            ),
    {
        let f = &mut self.frames[env];
        f.names = Vec::new();
        f.vals = Vec::new();
        proof {
            assert(f@.names =~= Seq::<Seq<char>>::empty());
            assert(f@.vals =~= Seq::<ValModel>::empty());
            assert(self@ =~= old(self)@.update(
                env as int,
                FrameModel {
                    parent: old(self)@[env as int].parent,
                    names: Seq::<Seq<char>>::empty(),
                    vals: Seq::<ValModel>::empty(),
                },
            ));
        }
    }

    /// Number of frames in the arena.
    pub fn len(&self) -> (n: usize)
        ensures
            n as int == self@.len(),
    {
        self.frames.len()
    }
}

} // verus!

//! Shader programs: compile-and-link bookkeeping, and name-to-handle
//! resolution cached at construction.
//!
//! The backend compiles, links and resolves; the builder decides. The
//! embedder drives a [`ProgramBuilder`] by performing each returned
//! [`BuildAction`] and reporting the backend's answers; the builder's
//! contracts pin, for every answer, the next actions, the error produced,
//! and — on any failure — that every backend object the build still held is
//! released, so no partial allocation is left dangling.

use vstd::prelude::*;
use vstd::pervasive::unreached;
use crate::error::{Error, ShaderStage};

verus! {

/// The first handle paired with `name`, if the name is registered.
pub open spec fn lookup<T>(pairs: Seq<(Seq<char>, T)>, name: Seq<char>) -> Option<T>
    decreases pairs.len(),
{
    if pairs.len() == 0 {
        None
    } else if pairs[0].0 == name {
        Some(pairs[0].1)
    } else {
        lookup(pairs.skip(1), name)
    }
}

/// The mathematical state of a [`ShaderProgram`]: the linked program handle
/// and the two name-to-handle maps resolved at construction.
pub struct ProgramModel {
    pub program: u64,
    pub uniforms: Seq<(Seq<char>, u64)>,
    pub attributes: Seq<(Seq<char>, u32)>,
}

/// A linked shader program with every declared uniform and attribute handle
/// resolved once, at construction; lookups after construction are pure and
/// never mutate the maps.
#[derive(Debug)]
pub struct ShaderProgram {
    program: u64,
    uniforms: Vec<(String, u64)>,
    attributes: Vec<(String, u32)>,
}

impl View for ShaderProgram {
    type V = ProgramModel;

    closed spec fn view(&self) -> ProgramModel {
        ProgramModel {
            program: self.program,
            uniforms: self.uniforms@.map_values(|p: (String, u64)| (p.0@, p.1)),
            attributes: self.attributes@.map_values(|p: (String, u32)| (p.0@, p.1)),
        }
    }
}

impl ShaderProgram {
    /// The backend handle of the linked program; the embedder makes the
    /// program current — activates it — by handing this to the backend's
    /// use-program call, which is idempotent on the backend.
    pub fn program_handle(&self) -> (h: u64)
        ensures
            h == self@.program,
    {
        self.program
    }

    /// The cached location handle of a declared uniform. Pure: asking for a
    /// name that was never registered is refused with `UnknownBinding`, and
    /// a registered name yields the same stable handle on every call.
    pub fn find_uniform(&self, name: &String) -> (r: Result<u64, Error>)
        ensures
            lookup(self@.uniforms, name@) matches Some(h) ==> r == Ok::<u64, Error>(h),
            lookup(self@.uniforms, name@) is None ==> (r matches Err(e)
                && e matches Error::UnknownBinding(missing) && missing@ == name@),
    {
        let ghost pairs = self@.uniforms;
        proof {
            assert(pairs.skip(0) =~= pairs);
        }
        let mut i: usize = 0;
        while i < self.uniforms.len()
            invariant
                i <= pairs.len(),
                pairs == self@.uniforms,
                pairs.len() == self.uniforms@.len(),
                forall|j: int| 0 <= j < pairs.len() ==> #[trigger] pairs[j]
                    == (self.uniforms@[j].0@, self.uniforms@[j].1),
                lookup(pairs, name@) == lookup(pairs.skip(i as int), name@),
            decreases pairs.len() - i,
        {
            if self.uniforms[i].0 == *name {
                proof {
                    assert(pairs.skip(i as int)[0] == pairs[i as int]);
                }
                return Ok(self.uniforms[i].1);
            }
            proof {
                assert(pairs.skip(i as int)[0] == pairs[i as int]);
                assert(pairs.skip(i as int).skip(1) =~= pairs.skip(i as int + 1));
            }
            i = i + 1;
        }
        proof {
            assert(pairs.skip(pairs.len() as int) =~= Seq::<(Seq<char>, u64)>::empty());
        }
        Err(Error::UnknownBinding(name.clone()))
    }

    /// The cached slot index of a declared attribute; pure, with the same
    /// contract as [`ShaderProgram::find_uniform`].
    pub fn find_attribute(&self, name: &String) -> (r: Result<u32, Error>)
        ensures
            lookup(self@.attributes, name@) matches Some(h) ==> r == Ok::<u32, Error>(h),
            lookup(self@.attributes, name@) is None ==> (r matches Err(e)
                && e matches Error::UnknownBinding(missing) && missing@ == name@),
    {
        let ghost pairs = self@.attributes;
        proof {
            assert(pairs.skip(0) =~= pairs);
        }
        let mut i: usize = 0;
        while i < self.attributes.len()
            invariant
                i <= pairs.len(),
                pairs == self@.attributes,
                pairs.len() == self.attributes@.len(),
                forall|j: int| 0 <= j < pairs.len() ==> #[trigger] pairs[j]
                    == (self.attributes@[j].0@, self.attributes@[j].1),
                lookup(pairs, name@) == lookup(pairs.skip(i as int), name@),
            decreases pairs.len() - i,
        {
            if self.attributes[i].0 == *name {
                proof {
                    assert(pairs.skip(i as int)[0] == pairs[i as int]);
                }
                return Ok(self.attributes[i].1);
            }
            proof {
                assert(pairs.skip(i as int)[0] == pairs[i as int]);
                assert(pairs.skip(i as int).skip(1) =~= pairs.skip(i as int + 1));
            }
            i = i + 1;
        }
        proof {
            assert(pairs.skip(pairs.len() as int) =~= Seq::<(Seq<char>, u32)>::empty());
        }
        Err(Error::UnknownBinding(name.clone()))
    }
}

/// A backend operation the embedder must perform, in the order given.
#[derive(Clone, Copy, Debug, PartialEq, Eq, Structural)]
pub enum BuildAction {
    /// Compile the source the caller holds for this stage.
    CompileShader(ShaderStage),
    /// Link the two compiled shader objects.
    LinkProgram(u64, u64),
    /// Release a shader object.
    DeleteShader(u64),
    /// Release a program object.
    DeleteProgram(u64),
}

/// Where a build stands between events.
#[derive(Clone, Copy, Debug, PartialEq, Eq, Structural)]
pub enum BuildPhase {
    /// Waiting for the vertex stage's compile result.
    CompilingVertex,
    /// Vertex stage compiled; waiting for the fragment stage.
    CompilingFragment { vert: u64 },
    /// Both stages compiled; waiting for the link result.
    Linking { vert: u64, frag: u64 },
    /// Linked; waiting for the declared names' resolution results.
    Resolving { program: u64 },
    /// Terminal: the build succeeded or failed.
    Finished,
}

/// The shader objects a build still holds at each phase; a failing step must
/// release exactly these.
pub open spec fn live_shaders(p: BuildPhase) -> Set<u64> {
    match p {
        BuildPhase::CompilingVertex => Set::empty(),
        BuildPhase::CompilingFragment { vert } => set![vert],
        BuildPhase::Linking { vert, frag } => set![vert, frag],
        BuildPhase::Resolving { .. } => Set::empty(),
        BuildPhase::Finished => Set::empty(),
    }
}

/// The program object a build still holds and has not handed to a finished
/// [`ShaderProgram`].
pub open spec fn live_program(p: BuildPhase) -> Option<u64> {
    match p {
        BuildPhase::Resolving { program } => Some(program),
        _ => None,
    }
}

/// What the embedder should do after an event.
#[derive(Debug)]
pub enum BuildStatus {
    /// Keep going: perform the actions and report the next result.
    InProgress,
    /// The program is built; the builder holds nothing further.
    Done(ShaderProgram),
    /// The build failed; the actions already released everything it held.
    Failed(Error),
}

/// The mathematical state of a [`ProgramBuilder`].
pub struct BuilderModel {
    pub uniform_names: Seq<Seq<char>>,
    pub attribute_names: Seq<Seq<char>>,
    pub phase: BuildPhase,
}

/// Builds one [`ShaderProgram`] against a backend, event by event:
/// compile each stage, link, release the intermediate shader objects, then
/// resolve every declared uniform and attribute name.
#[derive(Debug)]
pub struct ProgramBuilder {
    uniform_names: Vec<String>,
    attribute_names: Vec<String>,
    phase: BuildPhase,
}

impl View for ProgramBuilder {
    type V = BuilderModel;

    closed spec fn view(&self) -> BuilderModel {
        BuilderModel {
            uniform_names: self.uniform_names.deep_view(),
            attribute_names: self.attribute_names.deep_view(),
            phase: self.phase,
        }
    }
}

/// The position of the first unresolved answer, or the sequence's length if
/// every answer is present.
pub open spec fn first_none<T>(s: Seq<Option<T>>) -> int
    decreases s.len(),
{
    if s.len() == 0 {
        0
    } else if s[0] is None {
        0
    } else {
        1 + first_none(s.skip(1))
    }
}

/// `first_none` is the index of the first `None`: everything before it is
/// present, and it is the length exactly when everything is present.
pub proof fn lemma_first_none_at<T>(s: Seq<Option<T>>, i: int)
    requires
        0 <= i <= s.len(),
        forall|j: int| 0 <= j < i ==> (#[trigger] s[j]) is Some,
        i < s.len() ==> s[i] is None,
    ensures
        first_none(s) == i,
    decreases i,
{
    if i == 0 {
    } else {
        assert(s[0] is Some);
        lemma_first_none_at(s.skip(1), i - 1);
    }
}

impl ProgramBuilder {
    /// Begins a build that will resolve exactly the given names. The first
    /// action asks for the vertex stage's compilation; the caller keeps the
    /// source text.
    pub fn new(uniform_names: Vec<String>, attribute_names: Vec<String>) -> (r: (
        ProgramBuilder,
        Vec<BuildAction>,
    ))
        ensures
            r.0@.uniform_names == uniform_names.deep_view(),
            r.0@.attribute_names == attribute_names.deep_view(),
            r.0@.phase == BuildPhase::CompilingVertex,
            r.1@ == seq![BuildAction::CompileShader(ShaderStage::Vertex)],
    {
        let builder = ProgramBuilder {
            uniform_names,
            attribute_names,
            phase: BuildPhase::CompilingVertex,
        };
        let mut acts: Vec<BuildAction> = Vec::new();
        acts.push(BuildAction::CompileShader(ShaderStage::Vertex));
        proof {
            assert(acts@ =~= seq![BuildAction::CompileShader(ShaderStage::Vertex)]);
        }
        (builder, acts)
    }

    /// The declared uniform names, in resolution order.
    pub fn uniform_names(&self) -> (r: &Vec<String>)
        ensures
            r.deep_view() == self@.uniform_names,
    {
        &self.uniform_names
    }

    /// The declared attribute names, in resolution order.
    pub fn attribute_names(&self) -> (r: &Vec<String>)
        ensures
            r.deep_view() == self@.attribute_names,
    {
        &self.attribute_names
    }

    pub fn phase(&self) -> (p: BuildPhase)
        ensures
            p == self@.phase,
    {
        self.phase
    }

    /// The backend's verdict on the vertex stage. Success asks for the
    /// fragment stage; failure surfaces the diagnostic and ends the build
    /// with nothing allocated.
    pub fn vertex_compiled(&mut self, result: Result<u64, String>) -> (r: (
        Vec<BuildAction>,
        BuildStatus,
    ))
        requires
            old(self)@.phase is CompilingVertex,
        ensures
            final(self)@.uniform_names == old(self)@.uniform_names,
            final(self)@.attribute_names == old(self)@.attribute_names,
            result matches Ok(h) ==> {
                &&& final(self)@.phase == (BuildPhase::CompilingFragment { vert: h })
                &&& r.0@ == seq![BuildAction::CompileShader(ShaderStage::Fragment)]
                &&& r.1 is InProgress
            },
            result matches Err(diagnostic) ==> {
                &&& final(self)@.phase == BuildPhase::Finished
                &&& r.0@ == Seq::<BuildAction>::empty()
                &&& r.1 == BuildStatus::Failed(
                    Error::ShaderCompile(ShaderStage::Vertex, diagnostic),
                )
            },
    {
        match result {
            Ok(h) => {
                self.phase = BuildPhase::CompilingFragment { vert: h };
                let mut acts: Vec<BuildAction> = Vec::new();
                acts.push(BuildAction::CompileShader(ShaderStage::Fragment));
                proof {
                    assert(acts@ =~= seq![BuildAction::CompileShader(ShaderStage::Fragment)]);
                }
                (acts, BuildStatus::InProgress)
            },
            Err(diagnostic) => {
                self.phase = BuildPhase::Finished;
                let acts: Vec<BuildAction> = Vec::new();
                (acts, BuildStatus::Failed(Error::ShaderCompile(ShaderStage::Vertex, diagnostic)))
            },
        }
    }

    /// The backend's verdict on the fragment stage. Success asks for the
    /// link; failure releases the compiled vertex shader — the one object
    /// held — and ends the build.
    pub fn fragment_compiled(&mut self, result: Result<u64, String>) -> (r: (
        Vec<BuildAction>,
        BuildStatus,
    ))
        requires
            old(self)@.phase is CompilingFragment,
        ensures
            final(self)@.uniform_names == old(self)@.uniform_names,
            final(self)@.attribute_names == old(self)@.attribute_names,
            result matches Ok(h) ==> {
                &&& final(self)@.phase == (BuildPhase::Linking {
                    vert: old(self)@.phase->CompilingFragment_vert,
                    frag: h,
                })
                &&& r.0@ == seq![BuildAction::LinkProgram(old(self)@.phase->CompilingFragment_vert, h)]
                &&& r.1 is InProgress
            },
            result matches Err(diagnostic) ==> {
                &&& final(self)@.phase == BuildPhase::Finished
                &&& r.0@ == seq![BuildAction::DeleteShader(old(self)@.phase->CompilingFragment_vert)]
                &&& forall|s: u64|
                    live_shaders(old(self)@.phase).contains(s)
                        ==> r.0@.contains(BuildAction::DeleteShader(s))
                &&& live_shaders(final(self)@.phase).is_empty()
                &&& r.1 == BuildStatus::Failed(
                    Error::ShaderCompile(ShaderStage::Fragment, diagnostic),
                )
            },
    {
        let vert = match self.phase {
            BuildPhase::CompilingFragment { vert } => vert,
            _ => unreached(),
        };
        match result {
            Ok(h) => {
                self.phase = BuildPhase::Linking { vert, frag: h };
                let mut acts: Vec<BuildAction> = Vec::new();
                acts.push(BuildAction::LinkProgram(vert, h));
                proof {
                    assert(acts@ =~= seq![BuildAction::LinkProgram(vert, h)]);
                }
                (acts, BuildStatus::InProgress)
            },
            Err(diagnostic) => {
                self.phase = BuildPhase::Finished;
                let mut acts: Vec<BuildAction> = Vec::new();
                acts.push(BuildAction::DeleteShader(vert));
                proof {
                    assert(acts@ =~= seq![BuildAction::DeleteShader(vert)]);
                    assert(acts@[0] == BuildAction::DeleteShader(vert));
                    assert(acts@.contains(BuildAction::DeleteShader(vert)));
                    assert(live_shaders(BuildPhase::Finished).is_empty());
                }
                (acts, BuildStatus::Failed(Error::ShaderCompile(ShaderStage::Fragment, diagnostic)))
            },
        }
    }

    /// The backend's link verdict. `Ok` hands over the linked program;
    /// `Err` carries the program object if one was created, plus the
    /// diagnostic. Either way both intermediate shader objects are released
    /// immediately, and a failed program object is released with them.
    pub fn linked(&mut self, result: Result<u64, (Option<u64>, String)>) -> (r: (
        Vec<BuildAction>,
        BuildStatus,
    ))
        requires
            old(self)@.phase is Linking,
        ensures
            final(self)@.uniform_names == old(self)@.uniform_names,
            final(self)@.attribute_names == old(self)@.attribute_names,
            forall|s: u64|
                live_shaders(old(self)@.phase).contains(s)
                    ==> r.0@.contains(BuildAction::DeleteShader(s)),
            live_shaders(final(self)@.phase).is_empty(),
            result matches Ok(p) ==> {
                &&& final(self)@.phase == (BuildPhase::Resolving { program: p })
                &&& r.0@ == seq![
                    BuildAction::DeleteShader(old(self)@.phase->Linking_vert),
                    BuildAction::DeleteShader(old(self)@.phase->Linking_frag),
                ]
                &&& r.1 is InProgress
            },
            result matches Err(failure) ==> {
                &&& final(self)@.phase == BuildPhase::Finished
                &&& r.1 == BuildStatus::Failed(Error::ShaderLink(failure.1))
                &&& (failure.0 matches Some(p) ==> r.0@ == seq![
                    BuildAction::DeleteShader(old(self)@.phase->Linking_vert),
                    BuildAction::DeleteShader(old(self)@.phase->Linking_frag),
                    BuildAction::DeleteProgram(p),
                ])
                &&& (failure.0 is None ==> r.0@ == seq![
                    BuildAction::DeleteShader(old(self)@.phase->Linking_vert),
                    BuildAction::DeleteShader(old(self)@.phase->Linking_frag),
                ])
            },
    {
        let (vert, frag) = match self.phase {
            BuildPhase::Linking { vert, frag } => (vert, frag),
            _ => unreached(),
        };
        let mut acts: Vec<BuildAction> = Vec::new();
        acts.push(BuildAction::DeleteShader(vert));
        acts.push(BuildAction::DeleteShader(frag));
        match result {
            Ok(p) => {
                self.phase = BuildPhase::Resolving { program: p };
                proof {
                    assert(acts@ =~= seq![
                        BuildAction::DeleteShader(vert),
                        BuildAction::DeleteShader(frag),
                    ]);
                }
                (acts, BuildStatus::InProgress)
            },
            Err(failure) => {
                self.phase = BuildPhase::Finished;
                let (program, diagnostic) = failure;
                match program {
                    Some(p) => {
                        acts.push(BuildAction::DeleteProgram(p));
                        proof {
                            assert(acts@ =~= seq![
                                BuildAction::DeleteShader(vert),
                                BuildAction::DeleteShader(frag),
                                BuildAction::DeleteProgram(p),
                            ]);
                        }
                    },
                    None => {
                        proof {
                            assert(acts@ =~= seq![
                                BuildAction::DeleteShader(vert),
                                BuildAction::DeleteShader(frag),
                            ]);
                        }
                    },
                }
                (acts, BuildStatus::Failed(Error::ShaderLink(diagnostic)))
            },
        }
    }

    /// The backend's resolution of every declared name, in declaration
    /// order: each uniform's location and each attribute's slot, absent
    /// where the linked program has no such declaration. All present
    /// finishes the program; otherwise the first absent name — uniforms
    /// before attributes — fails the build with `UnknownBinding`, and the
    /// program object, the one thing still held, is released.
    #[verifier::loop_isolation(false)]
    pub fn resolved(&mut self, uniforms: Vec<Option<u64>>, attributes: Vec<Option<u32>>) -> (r: (
        Vec<BuildAction>,
        BuildStatus,
    ))
        requires
            old(self)@.phase is Resolving,
            uniforms@.len() == old(self)@.uniform_names.len(),
            attributes@.len() == old(self)@.attribute_names.len(),
        ensures
            final(self)@.uniform_names == old(self)@.uniform_names,
            final(self)@.attribute_names == old(self)@.attribute_names,
            final(self)@.phase == BuildPhase::Finished,
            live_shaders(final(self)@.phase).is_empty(),
            live_program(final(self)@.phase) is None,
            ({
                let fu = first_none(uniforms@);
                let fa = first_none(attributes@);
                let program = old(self)@.phase->program;
                if fu < uniforms@.len() {
                    &&& r.0@ == seq![BuildAction::DeleteProgram(program)]
                    &&& r.1 matches BuildStatus::Failed(e) && e matches Error::UnknownBinding(n)
                        && n@ == old(self)@.uniform_names[fu]
                } else if fa < attributes@.len() {
                    &&& r.0@ == seq![BuildAction::DeleteProgram(program)]
                    &&& r.1 matches BuildStatus::Failed(e) && e matches Error::UnknownBinding(n)
                        && n@ == old(self)@.attribute_names[fa]
                } else {
                    &&& r.0@ == Seq::<BuildAction>::empty()
                    &&& r.1 matches BuildStatus::Done(p) && {
                        &&& p@.program == program
                        &&& p@.uniforms.len() == uniforms@.len()
                        &&& forall|i: int|
                            0 <= i < uniforms@.len() ==> #[trigger] p@.uniforms[i]
                                == (old(self)@.uniform_names[i], uniforms@[i]->0)
                        &&& p@.attributes.len() == attributes@.len()
                        &&& forall|i: int|
                            0 <= i < attributes@.len() ==> #[trigger] p@.attributes[i]
                                == (old(self)@.attribute_names[i], attributes@[i]->0)
                    }
                }
            }),
    {
        let program = match self.phase {
            BuildPhase::Resolving { program } => program,
            _ => unreached(),
        };
        let mut found_uniforms: Vec<(String, u64)> = Vec::new();
        let mut i: usize = 0;
        while i < uniforms.len()
            invariant
                i <= uniforms@.len(),
                *self == *old(self),
                forall|j: int| 0 <= j < i ==> (#[trigger] uniforms@[j]) is Some,
                found_uniforms@.len() == i,
                forall|j: int|
                    0 <= j < i ==> (#[trigger] found_uniforms@[j]).0@ == self@.uniform_names[j]
                        && found_uniforms@[j].1 == uniforms@[j]->0,
            decreases uniforms@.len() - i,
        {
            match uniforms[i] {
                None => {
                    proof {
                        lemma_first_none_at(uniforms@, i as int);
                    }
                    let missing = self.uniform_names[i].clone();
                    self.phase = BuildPhase::Finished;
                    let mut acts: Vec<BuildAction> = Vec::new();
                    acts.push(BuildAction::DeleteProgram(program));
                    proof {
                        assert(acts@ =~= seq![BuildAction::DeleteProgram(program)]);
                    }
                    return (acts, BuildStatus::Failed(Error::UnknownBinding(missing)));
                },
                Some(h) => {
                    found_uniforms.push((self.uniform_names[i].clone(), h));
                },
            }
            i = i + 1;
        }
        proof {
            lemma_first_none_at(uniforms@, uniforms@.len() as int);
        }
        let mut found_attributes: Vec<(String, u32)> = Vec::new();
        let mut k: usize = 0;
        while k < attributes.len()
            invariant
                k <= attributes@.len(),
                *self == *old(self),
                forall|j: int| 0 <= j < k ==> (#[trigger] attributes@[j]) is Some,
                found_attributes@.len() == k,
                forall|j: int|
                    0 <= j < k ==> (#[trigger] found_attributes@[j]).0@
                        == self@.attribute_names[j]
                        && found_attributes@[j].1 == attributes@[j]->0,
            decreases attributes@.len() - k,
        {
            match attributes[k] {
                None => {
                    proof {
                        lemma_first_none_at(attributes@, k as int);
                    }
                    let missing = self.attribute_names[k].clone();
                    self.phase = BuildPhase::Finished;
                    let mut acts: Vec<BuildAction> = Vec::new();
                    acts.push(BuildAction::DeleteProgram(program));
                    proof {
                        assert(acts@ =~= seq![BuildAction::DeleteProgram(program)]);
                    }
                    return (acts, BuildStatus::Failed(Error::UnknownBinding(missing)));
                },
                Some(h) => {
                    found_attributes.push((self.attribute_names[k].clone(), h));
                },
            }
            k = k + 1;
        }
        proof {
            lemma_first_none_at(attributes@, attributes@.len() as int);
        }
        self.phase = BuildPhase::Finished;
        let built = ShaderProgram {
            program,
            uniforms: found_uniforms,
            attributes: found_attributes,
        };
        (Vec::new(), BuildStatus::Done(built))
    }
}

} // verus!

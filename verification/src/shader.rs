//! Shader-resource lifecycle: compilation of a shader stage, linking of a
//! program, diagnostics, and deterministic release of every GPU object.
//!
//! The decisions are split from the driver calls: `decide_compile` and
//! `decide_link` turn a reported status flag and info log into either an
//! owning value or a diagnostic together with the duty to release the
//! failed object. `Shader::from_source` and `Program::from_shaders` run
//! the full protocol against the mock driver and prove that no handle
//! leaks on any path: on failure, creates equal deletes again when the
//! call returns.

use vstd::prelude::*;

use crate::gpu::MockGpu;

verus! {

/// A point in the rendering pipeline a shader program implements.
#[derive(Clone, Copy, Debug, PartialEq, Eq, Structural)]
pub enum ShaderStage {
    Vertex,
    Fragment,
}

/// One successfully compiled shader stage, owning its GPU handle.
#[derive(Debug)]
pub struct Shader {
    pub id: u32,
    pub stage: ShaderStage,
}

/// A linked program, owning its GPU handle.
#[derive(Debug)]
pub struct Program {
    pub id: u32,
}

/// Diagnostic for a failed compilation.
#[derive(Debug)]
pub struct CompileError {
    pub stage: ShaderStage,
    pub log: String,
}

/// Diagnostic for a failed link.
#[derive(Debug)]
pub struct LinkError {
    pub log: String,
}

/// What to do with a shader object after its compile status is known.
pub enum CompileDecision {
    /// Compilation succeeded: keep the owning value.
    Keep(Shader),
    /// Compilation failed: the caller must release the handle, then
    /// report the diagnostic.
    Discard(CompileError),
}

/// What to do with a program object after its link status is known.
pub enum LinkDecision {
    /// Linking succeeded: keep the owning value.
    Keep(Program),
    /// Linking failed: the caller must release the handle, then report
    /// the diagnostic.
    Discard(LinkError),
}

/// The decision after a compile attempt: a compiled unit exactly when the
/// driver reported success, the diagnostic (and the duty to release)
/// exactly otherwise.
pub fn decide_compile(stage: ShaderStage, handle: u32, compiled: bool, log: String) -> (d:
    CompileDecision)
    ensures
        compiled ==> d == CompileDecision::Keep(Shader { id: handle, stage }),
        !compiled ==> d == CompileDecision::Discard(CompileError { stage, log }),
{
    if compiled {
        CompileDecision::Keep(Shader { id: handle, stage })
    } else {
        CompileDecision::Discard(CompileError { stage, log })
    }
}

/// The decision after a link attempt, as `decide_compile`.
pub fn decide_link(handle: u32, linked: bool, log: String) -> (d: LinkDecision)
    ensures
        linked ==> d == LinkDecision::Keep(Program { id: handle }),
        !linked ==> d == LinkDecision::Discard(LinkError { log }),
{
    if linked {
        LinkDecision::Keep(Program { id: handle })
    } else {
        LinkDecision::Discard(LinkError { log })
    }
}

/// Some shader in `s[lo..hi]` has handle `x`.
pub open spec fn id_in_range(s: Seq<Shader>, x: u32, lo: int, hi: int) -> bool {
    exists|j: int| lo <= j < hi && s[j].id == x
}

/// Contract of a compile attempt: one shader object is created; on
/// success it is owned by the returned unit, on failure it is released
/// again before the diagnostic (carrying the driver's log) is returned,
/// so creates minus deletes is unchanged.
pub open spec fn compile_post(
    g0: MockGpu,
    g1: MockGpu,
    kind: ShaderStage,
    r: Result<Shader, CompileError>,
) -> bool {
    &&& g1.wf()
    &&& g1.same_config(g0)
    &&& g1.compiles == g0.compiles + 1
    &&& g1.links == g0.links
    &&& g1.active_program == g0.active_program
    &&& g1.attachments == g0.attachments
    &&& g1.live_programs == g0.live_programs
    &&& (g0.compile_ok ==> {
        &&& r is Ok
        &&& (r->Ok_0).stage == kind
        &&& (r->Ok_0).id == g0.next_handle
        &&& (r->Ok_0).id >= 1
        &&& !g0.shader_live((r->Ok_0).id)
        &&& g1.shader_live((r->Ok_0).id)
        &&& forall|x: u32|
            x != (r->Ok_0).id ==> #[trigger] g1.shader_live(x) == g0.shader_live(x)
        &&& g1.creates == g0.creates + 1
        &&& g1.deletes == g0.deletes
        &&& g1.balance() == g0.balance() + 1
    })
    &&& (!g0.compile_ok ==> {
        &&& r is Err
        &&& r->Err_0 == (CompileError { stage: kind, log: g0.compile_log })
        &&& forall|x: u32| #[trigger] g1.shader_live(x) == g0.shader_live(x)
        &&& g1.creates == g0.creates + 1
        &&& g1.deletes == g0.deletes + 1
        &&& g1.balance() == g0.balance()
    })
}

/// Contract of a link attempt: every input unit is detached and released
/// whatever the outcome; one program object is created, owned by the
/// result on success and released again on failure, whose diagnostic
/// carries the driver's log.
pub open spec fn link_post(
    g0: MockGpu,
    g1: MockGpu,
    shaders: Seq<Shader>,
    r: Result<Program, LinkError>,
) -> bool {
    &&& g1.wf()
    &&& g1.same_config(g0)
    &&& g1.links == g0.links + 1
    &&& g1.compiles == g0.compiles
    &&& g1.compiled_sources == g0.compiled_sources
    &&& g1.active_program == g0.active_program
    &&& forall|i: int| 0 <= i < shaders.len() ==> !g1.shader_live(#[trigger] shaders[i].id)
    &&& forall|x: u32|
        !id_in_range(shaders, x, 0, shaders.len() as int) ==> #[trigger] g1.shader_live(x)
            == g0.shader_live(x)
    &&& forall|p2: u32, s2: u32| #[trigger] g1.attached(p2, s2) == g0.attached(p2, s2)
    &&& (g0.link_ok ==> {
        &&& r is Ok
        &&& (r->Ok_0).id >= 1
        &&& !g0.program_live((r->Ok_0).id)
        &&& g1.program_live((r->Ok_0).id)
        &&& forall|x: u32|
            x != (r->Ok_0).id ==> #[trigger] g1.program_live(x) == g0.program_live(x)
        &&& g1.balance() == g0.balance() + 1 - shaders.len()
    })
    &&& (!g0.link_ok ==> {
        &&& r is Err
        &&& r->Err_0 == (LinkError { log: g0.link_log })
        &&& forall|x: u32| #[trigger] g1.program_live(x) == g0.program_live(x)
        &&& g1.balance() == g0.balance() - shaders.len()
    })
}

impl Shader {
    /// Compiles `source` for the given stage: creates a shader object,
    /// attaches the source, compiles, and checks the status flag. On
    /// failure the object is released before the diagnostic is returned,
    /// so nothing leaks.
    pub fn from_source(gpu: &mut MockGpu, source: &str, kind: ShaderStage) -> (r: Result<
        Shader,
        CompileError,
    >)
        requires
            old(gpu).wf(),
            old(gpu).next_handle < u32::MAX,
            old(gpu).creates < u64::MAX,
            old(gpu).compiles < u64::MAX,
        ensures
            compile_post(*old(gpu), *final(gpu), kind, r),
    {
        let h = gpu.create_shader();
        gpu.compile_shader(h, source);
        proof {
            assert forall|x: u32| x != h implies gpu.shader_live(x) == old(gpu).shader_live(
                x,
            ) by {
                if old(gpu).shader_live(x) {
                    let j = choose|j: int|
                        0 <= j < old(gpu).live_shaders@.len() && old(gpu).live_shaders@[j] == x;
                    assert(gpu.live_shaders@[j] == x);
                }
                if gpu.shader_live(x) {
                    let j = choose|j: int|
                        0 <= j < gpu.live_shaders@.len() && gpu.live_shaders@[j] == x;
                    if j < old(gpu).live_shaders@.len() {
                        assert(old(gpu).live_shaders@[j] == x);
                    }
                }
            }
        }
        let ok = gpu.get_compile_status();
        let log = if ok {
            String::new()
        } else {
            gpu.compile_info_log()
        };
        match decide_compile(kind, h, ok, log) {
            CompileDecision::Keep(sh) => Result::Ok(sh),
            CompileDecision::Discard(e) => {
                proof {
                    assert(!gpu.shader_attached(h)) by {
                        if gpu.shader_attached(h) {
                            let p2 = choose|p2: u32| gpu.attached(p2, h);
                            let j = choose|j: int|
                                0 <= j < old(gpu).attachments@.len() && old(gpu).attachments@[j]
                                    == (p2, h);
                            assert(old(gpu).shader_live(h));
                        }
                    }
                }
                gpu.delete_shader(h);
                Result::Err(e)
            },
        }
    }

    /// Compiles `source` as a vertex-stage shader.
    pub fn from_vert_source(gpu: &mut MockGpu, source: &str) -> (r: Result<Shader, CompileError>)
        requires
            old(gpu).wf(),
            old(gpu).next_handle < u32::MAX,
            old(gpu).creates < u64::MAX,
            old(gpu).compiles < u64::MAX,
        ensures
            compile_post(*old(gpu), *final(gpu), ShaderStage::Vertex, r),
    {
        Shader::from_source(gpu, source, ShaderStage::Vertex)
    }

    /// Compiles `source` as a fragment-stage shader.
    pub fn from_frag_source(gpu: &mut MockGpu, source: &str) -> (r: Result<Shader, CompileError>)
        requires
            old(gpu).wf(),
            old(gpu).next_handle < u32::MAX,
            old(gpu).creates < u64::MAX,
            old(gpu).compiles < u64::MAX,
        ensures
            compile_post(*old(gpu), *final(gpu), ShaderStage::Fragment, r),
    {
        Shader::from_source(gpu, source, ShaderStage::Fragment)
    }

    /// Releases the underlying shader object. Consumes the unit: after
    /// this call no value refers to the handle.
    pub fn release(self, gpu: &mut MockGpu)
        requires
            old(gpu).wf(),
            old(gpu).shader_live(self.id),
            !old(gpu).shader_attached(self.id),
        ensures
            final(gpu).wf(),
            final(gpu).same_config(*old(gpu)),
            !final(gpu).shader_live(self.id),
            forall|x: u32|
                x != self.id ==> #[trigger] final(gpu).shader_live(x) == old(gpu).shader_live(x),
            final(gpu).live_programs == old(gpu).live_programs,
            final(gpu).attachments == old(gpu).attachments,
            final(gpu).deletes == old(gpu).deletes + 1,
            final(gpu).creates == old(gpu).creates,
            final(gpu).balance() == old(gpu).balance() - 1,
    {
        gpu.delete_shader(self.id);
    }
}

impl Program {
    /// Links a program from the given units: creates a program object,
    /// attaches every unit, links, and checks the status flag. Ownership
    /// of the units transfers into this call and they are consumed
    /// unconditionally: whatever the outcome, every unit is detached and
    /// its shader object released. On link failure the program object is
    /// released too, so creates equal deletes again relative to entry.
    pub fn from_shaders(gpu: &mut MockGpu, shaders: Vec<Shader>) -> (r: Result<Program, LinkError>)
        requires
            old(gpu).wf(),
            shaders@.len() >= 1,
            forall|i: int|
                0 <= i < shaders@.len() ==> old(gpu).shader_live(#[trigger] shaders@[i].id),
            forall|i: int, j: int|
                0 <= i < j < shaders@.len() ==> shaders@[i].id != shaders@[j].id,
            forall|i: int|
                0 <= i < shaders@.len() ==> !old(gpu).shader_attached(#[trigger] shaders@[i].id),
            old(gpu).next_handle < u32::MAX,
            old(gpu).creates < u64::MAX,
            old(gpu).links < u64::MAX,
        ensures
            link_post(*old(gpu), *final(gpu), shaders@, r),
    {
        let ghost g0 = *old(gpu);
        let p = gpu.create_program();
        let ghost g1 = *gpu;
        proof {
            assert forall|s2: u32| !g0.attached(p, s2) by {
                if g0.attached(p, s2) {
                    let j = choose|j: int|
                        0 <= j < g0.attachments@.len() && g0.attachments@[j] == (p, s2);
                    assert(g0.program_live(p));
                }
            }
        }
        let n = shaders.len();
        let mut i: usize = 0;
        while i < n
            invariant
                gpu.wf(),
                n == shaders@.len(),
                0 <= i <= n,
                g1.live_shaders == g0.live_shaders,
                g1.live_programs@ == g0.live_programs@.push(p),
                g1.attachments == g0.attachments,
                !g0.program_live(p),
                gpu.live_shaders == g1.live_shaders,
                gpu.live_programs == g1.live_programs,
                gpu.creates == g1.creates,
                gpu.deletes == g1.deletes,
                gpu.compiles == g1.compiles,
                gpu.links == g1.links,
                gpu.compiled_sources == g1.compiled_sources,
                gpu.active_program == g1.active_program,
                gpu.next_handle == g1.next_handle,
                gpu.same_config(g1),
                g1.same_config(g0),
                g1.creates == g0.creates + 1,
                g1.deletes == g0.deletes,
                g1.compiles == g0.compiles,
                g1.links == g0.links,
                g1.compiled_sources == g0.compiled_sources,
                g1.active_program == g0.active_program,
                gpu.program_live(p),
                p >= 1,
                forall|k: int| 0 <= k < n ==> g0.shader_live(#[trigger] shaders@[k].id),
                forall|k: int, l: int| 0 <= k < l < n ==> shaders@[k].id != shaders@[l].id,
                forall|s2: u32| !g0.attached(p, s2),
                forall|p2: u32, s2: u32|
                    #[trigger] gpu.attached(p2, s2) == (g0.attached(p2, s2) || (p2 == p
                        && id_in_range(shaders@, s2, 0, i as int))),
            decreases n - i,
        {
            proof {
                let si = shaders@[i as int].id;
                assert(gpu.shader_live(si)) by {
                    assert(g0.shader_live(si));
                }
                assert(!gpu.attached(p, si)) by {
                    if id_in_range(shaders@, si, 0, i as int) {
                        let j = choose|j: int| 0 <= j < i && shaders@[j].id == si;
                    }
                }
            }
            gpu.attach_shader(p, shaders[i].id);
            proof {
                let si = shaders@[i as int].id;
                assert forall|p2: u32, s2: u32| #[trigger] gpu.attached(p2, s2) == (g0.attached(
                    p2,
                    s2,
                ) || (p2 == p && id_in_range(shaders@, s2, 0, (i + 1) as int))) by {
                    if p2 == p && s2 == si {
                        assert(gpu.attached(p2, s2));
                        assert(id_in_range(shaders@, s2, 0, (i + 1) as int)) by {
                            assert(shaders@[i as int].id == s2);
                        }
                    } else {
                        if p2 == p && s2 != si && id_in_range(shaders@, s2, 0, (i + 1) as int) {
                            let j = choose|j: int| 0 <= j < i + 1 && shaders@[j].id == s2;
                            assert(0 <= j < i && shaders@[j].id == s2);
                            assert(id_in_range(shaders@, s2, 0, i as int));
                        }
                        if p2 == p && id_in_range(shaders@, s2, 0, i as int) {
                            let j = choose|j: int| 0 <= j < i && shaders@[j].id == s2;
                            assert(id_in_range(shaders@, s2, 0, (i + 1) as int));
                        }
                    }
                }
            }
            i = i + 1;
        }
        let ghost ga = *gpu;
        gpu.link_program(p);
        let ok = gpu.get_link_status();
        let log = if ok {
            String::new()
        } else {
            gpu.link_info_log()
        };
        proof {
            assert forall|p2: u32, s2: u32| #[trigger] gpu.attached(p2, s2) == (g0.attached(p2, s2)
                || (p2 == p && id_in_range(shaders@, s2, 0, n as int))) by {
                assert(ga.attached(p2, s2) == (g0.attached(p2, s2) || (p2 == p && id_in_range(
                    shaders@,
                    s2,
                    0,
                    n as int,
                ))));
                assert(gpu.attachments == ga.attachments);
            }
            assert forall|x: u32| #[trigger] gpu.shader_live(x) == (g0.shader_live(x)
                && !id_in_range(shaders@, x, 0, 0)) by {
                if id_in_range(shaders@, x, 0, 0) {
                    let j = choose|j: int| 0 <= j < 0 && shaders@[j].id == x;
                }
                assert(gpu.live_shaders == g0.live_shaders);
            }
        }
        let ghost g2 = *gpu;
        let mut i: usize = 0;
        while i < n
            invariant
                gpu.wf(),
                n == shaders@.len(),
                0 <= i <= n,
                g2.live_shaders == g0.live_shaders,
                g2.live_programs@ == g0.live_programs@.push(p),
                !g0.program_live(p),
                gpu.live_programs == g2.live_programs,
                gpu.creates == g2.creates,
                gpu.deletes == g2.deletes + i,
                gpu.compiles == g2.compiles,
                gpu.links == g2.links,
                gpu.compiled_sources == g2.compiled_sources,
                gpu.active_program == g2.active_program,
                gpu.next_handle == g2.next_handle,
                gpu.same_config(g2),
                g2.same_config(g0),
                g2.creates == g0.creates + 1,
                g2.deletes == g0.deletes,
                g2.compiles == g0.compiles,
                g2.links == g0.links + 1,
                g2.compiled_sources == g0.compiled_sources,
                g2.active_program == g0.active_program,
                g2.link_ok == g0.link_ok,
                gpu.program_live(p),
                p >= 1,
                ok == g0.link_ok,
                !ok ==> log == g0.link_log,
                forall|k: int| 0 <= k < n ==> g0.shader_live(#[trigger] shaders@[k].id),
                forall|k: int, l: int| 0 <= k < l < n ==> shaders@[k].id != shaders@[l].id,
                forall|k: int| 0 <= k < n ==> !g0.shader_attached(#[trigger] shaders@[k].id),
                forall|s2: u32| !g0.attached(p, s2),
                forall|x: u32|
                    #[trigger] gpu.shader_live(x) == (g0.shader_live(x) && !id_in_range(
                        shaders@,
                        x,
                        0,
                        i as int,
                    )),
                forall|p2: u32, s2: u32|
                    #[trigger] gpu.attached(p2, s2) == (g0.attached(p2, s2) || (p2 == p
                        && id_in_range(shaders@, s2, i as int, n as int))),
            decreases n - i,
        {
            let ghost gs = *gpu;
            proof {
                let si = shaders@[i as int].id;
                assert(gpu.attached(p, si)) by {
                    assert(id_in_range(shaders@, si, i as int, n as int)) by {
                        assert(shaders@[i as int].id == si);
                    }
                }
            }
            gpu.detach_shader(p, shaders[i].id);
            let ghost gd = *gpu;
            proof {
                let si = shaders@[i as int].id;
                assert forall|p2: u32, s2: u32| #[trigger] gd.attached(p2, s2) == (g0.attached(
                    p2,
                    s2,
                ) || (p2 == p && id_in_range(shaders@, s2, (i + 1) as int, n as int))) by {
                    assert(gs.attached(p2, s2) == (g0.attached(p2, s2) || (p2 == p && id_in_range(
                        shaders@,
                        s2,
                        i as int,
                        n as int,
                    ))));
                    if p2 == p && s2 == si {
                        assert(!gd.attached(p2, s2));
                        if id_in_range(shaders@, si, (i + 1) as int, n as int) {
                            let j = choose|j: int| i + 1 <= j < n && shaders@[j].id == si;
                        }
                    } else {
                        assert(gd.attached(p2, s2) == gs.attached(p2, s2));
                        if p2 == p && s2 != si && id_in_range(shaders@, s2, i as int, n as int) {
                            let j = choose|j: int| i <= j < n && shaders@[j].id == s2;
                            assert(i + 1 <= j);
                            assert(id_in_range(shaders@, s2, (i + 1) as int, n as int));
                        }
                        if p2 == p && id_in_range(shaders@, s2, (i + 1) as int, n as int) {
                            let j = choose|j: int| i + 1 <= j < n && shaders@[j].id == s2;
                            assert(id_in_range(shaders@, s2, i as int, n as int));
                        }
                    }
                }
                assert(gpu.shader_live(si)) by {
                    assert(gs.shader_live(si) == (g0.shader_live(si) && !id_in_range(
                        shaders@,
                        si,
                        0,
                        i as int,
                    )));
                    assert(g0.shader_live(si));
                    if id_in_range(shaders@, si, 0, i as int) {
                        let j = choose|j: int| 0 <= j < i && shaders@[j].id == si;
                    }
                    assert(gpu.live_shaders == gs.live_shaders);
                }
                assert(!gpu.shader_attached(si)) by {
                    if gpu.shader_attached(si) {
                        let p2 = choose|p2: u32| gpu.attached(p2, si);
                        assert(gd.attached(p2, si));
                        if g0.attached(p2, si) {
                            assert(g0.shader_attached(si));
                        } else {
                            assert(p2 == p && id_in_range(shaders@, si, (i + 1) as int, n as int));
                            let j = choose|j: int| i + 1 <= j < n && shaders@[j].id == si;
                        }
                    }
                }
            }
            gpu.delete_shader(shaders[i].id);
            proof {
                let si = shaders@[i as int].id;
                assert forall|p2: u32, s2: u32| #[trigger] gpu.attached(p2, s2) == (g0.attached(
                    p2,
                    s2,
                ) || (p2 == p && id_in_range(shaders@, s2, (i + 1) as int, n as int))) by {
                    assert(gd.attached(p2, s2) == (g0.attached(p2, s2) || (p2 == p && id_in_range(
                        shaders@,
                        s2,
                        (i + 1) as int,
                        n as int,
                    ))));
                    assert(gpu.attachments == gd.attachments);
                }
                assert forall|x: u32| #[trigger] gpu.shader_live(x) == (g0.shader_live(x)
                    && !id_in_range(shaders@, x, 0, (i + 1) as int)) by {
                    if x == si {
                        assert(!gpu.shader_live(x));
                        assert(id_in_range(shaders@, x, 0, (i + 1) as int)) by {
                            assert(shaders@[i as int].id == x);
                        }
                    } else {
                        assert(gpu.shader_live(x) == gd.shader_live(x));
                        assert(gd.live_shaders == gs.live_shaders);
                        assert(gs.shader_live(x) == (g0.shader_live(x) && !id_in_range(
                            shaders@,
                            x,
                            0,
                            i as int,
                        )));
                        if id_in_range(shaders@, x, 0, (i + 1) as int) {
                            let j = choose|j: int| 0 <= j < i + 1 && shaders@[j].id == x;
                            assert(0 <= j < i);
                            assert(id_in_range(shaders@, x, 0, i as int));
                        }
                        if id_in_range(shaders@, x, 0, i as int) {
                            let j = choose|j: int| 0 <= j < i && shaders@[j].id == x;
                            assert(id_in_range(shaders@, x, 0, (i + 1) as int));
                        }
                    }
                }
            }
            i = i + 1;
        }
        let ghost g3 = *gpu;
        proof {
            assert forall|p2: u32, s2: u32| #[trigger] g3.attached(p2, s2) == g0.attached(
                p2,
                s2,
            ) by {
                if id_in_range(shaders@, s2, n as int, n as int) {
                    let j = choose|j: int| n <= j < n && shaders@[j].id == s2;
                }
            }
            assert forall|i2: int| 0 <= i2 < shaders@.len() implies !g3.shader_live(
                #[trigger] shaders@[i2].id,
            ) by {
                assert(id_in_range(shaders@, shaders@[i2].id, 0, n as int)) by {
                    assert(shaders@[i2].id == shaders@[i2].id);
                }
            }
        }
        match decide_link(p, ok, log) {
            LinkDecision::Keep(prog) => {
                proof {
                    assert forall|x: u32| x != p implies #[trigger] gpu.program_live(x)
                        == g0.program_live(x) by {
                        if g0.program_live(x) {
                            let j = choose|j: int|
                                0 <= j < g0.live_programs@.len() && g0.live_programs@[j] == x;
                            assert(gpu.live_programs@[j] == x);
                        }
                        if gpu.program_live(x) {
                            let j = choose|j: int|
                                0 <= j < gpu.live_programs@.len() && gpu.live_programs@[j] == x;
                            if j < g0.live_programs@.len() {
                                assert(g0.live_programs@[j] == x);
                            }
                        }
                    }
                }
                Result::Ok(prog)
            },
            LinkDecision::Discard(e) => {
                proof {
                    assert forall|s2: u32| !gpu.attached(p, s2) by {
                        assert(g3.attached(p, s2) == g0.attached(p, s2));
                    }
                }
                gpu.delete_program(p);
                proof {
                    assert forall|p2: u32, s2: u32| #[trigger] gpu.attached(p2, s2)
                        == g0.attached(p2, s2) by {
                        assert(g3.attached(p2, s2) == g0.attached(p2, s2));
                        assert(gpu.attachments == g3.attachments);
                    }
                    assert forall|i2: int| 0 <= i2 < shaders@.len() implies !gpu.shader_live(
                        #[trigger] shaders@[i2].id,
                    ) by {
                        assert(!g3.shader_live(shaders@[i2].id));
                        assert(gpu.live_shaders == g3.live_shaders);
                    }
                    assert forall|x: u32| !id_in_range(shaders@, x, 0, shaders@.len() as int)
                        implies #[trigger] gpu.shader_live(x) == g0.shader_live(x) by {
                        assert(g3.shader_live(x) == (g0.shader_live(x) && !id_in_range(
                            shaders@,
                            x,
                            0,
                            n as int,
                        )));
                        assert(gpu.live_shaders == g3.live_shaders);
                    }
                    assert forall|x: u32| #[trigger] gpu.program_live(x) == g0.program_live(x) by {
                        if x != p {
                            assert(gpu.program_live(x) == g3.program_live(x));
                            if g0.program_live(x) {
                                let j = choose|j: int|
                                    0 <= j < g0.live_programs@.len() && g0.live_programs@[j] == x;
                                assert(g3.live_programs@[j] == x);
                            }
                            if g3.program_live(x) {
                                let j = choose|j: int|
                                    0 <= j < g3.live_programs@.len() && g3.live_programs@[j] == x;
                                if j < g0.live_programs@.len() {
                                    assert(g0.live_programs@[j] == x);
                                }
                            }
                        }
                    }
                }
                Result::Err(e)
            },
        }
    }

    /// Makes this program the current rendering program; the side effect
    /// is global pipeline state.
    pub fn set_used(&self, gpu: &mut MockGpu)
        requires
            old(gpu).wf(),
            old(gpu).program_live(self.id),
        ensures
            final(gpu).wf(),
            final(gpu).active_program == self.id,
            final(gpu).live_shaders == old(gpu).live_shaders,
            final(gpu).live_programs == old(gpu).live_programs,
            final(gpu).attachments == old(gpu).attachments,
            final(gpu).creates == old(gpu).creates,
            final(gpu).deletes == old(gpu).deletes,
            final(gpu).same_config(*old(gpu)),
    {
        gpu.use_program(self.id);
    }

    /// The location of a named vertex attribute of this program, or -1
    /// when absent. An absent name does not fail the program.
    pub fn attrib_location(&self, gpu: &MockGpu, name: &String) -> (loc: i32)
        requires
            gpu.wf(),
            gpu.program_live(self.id),
        ensures
            loc == -1 || 0 <= loc < gpu.attrib_names@.len(),
            loc == -1 ==> forall|i: int|
                0 <= i < gpu.attrib_names@.len() ==> (#[trigger] gpu.attrib_names@[i])@ != name@,
            loc != -1 ==> gpu.attrib_names@[loc as int]@ == name@,
    {
        gpu.get_attrib_location(name)
    }

    /// The location of a named uniform of this program, or -1 when
    /// absent. An absent name does not fail the program.
    pub fn uniform_location(&self, gpu: &MockGpu, name: &String) -> (loc: i32)
        requires
            gpu.wf(),
            gpu.program_live(self.id),
        ensures
            loc == -1 || 0 <= loc < gpu.uniform_names@.len(),
            loc == -1 ==> forall|i: int|
                0 <= i < gpu.uniform_names@.len() ==> (#[trigger] gpu.uniform_names@[i])@ != name@,
            loc != -1 ==> gpu.uniform_names@[loc as int]@ == name@,
    {
        gpu.get_uniform_location(name)
    }

    /// Releases the underlying program object. Consumes the program:
    /// after this call no value refers to the handle.
    pub fn release(self, gpu: &mut MockGpu)
        requires
            old(gpu).wf(),
            old(gpu).program_live(self.id),
            forall|s: u32| !old(gpu).attached(self.id, s),
        ensures
            final(gpu).wf(),
            final(gpu).same_config(*old(gpu)),
            !final(gpu).program_live(self.id),
            forall|x: u32|
                x != self.id ==> #[trigger] final(gpu).program_live(x) == old(gpu).program_live(x),
            final(gpu).live_shaders == old(gpu).live_shaders,
            final(gpu).attachments == old(gpu).attachments,
            final(gpu).deletes == old(gpu).deletes + 1,
            final(gpu).creates == old(gpu).creates,
            final(gpu).balance() == old(gpu).balance() - 1,
    {
        gpu.delete_program(self.id);
    }
}

/// Whether a location reported by the driver may be written to: negative
/// values are the driver's "not found" sentinel and writing to them is a
/// silent no-op, so the frame loop must skip them.
pub fn location_usable(loc: i32) -> (b: bool)
    ensures
        b == (loc >= 0),
{
    loc >= 0
}

} // verus!

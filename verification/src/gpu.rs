//! A mock GPU driver.
//!
//! GPU shader and program objects are unmanaged native handles that must
//! be created, validated and destroyed exactly once. The real driver is
//! reached only through unverifiable foreign calls, so the library states
//! and proves its lifecycle logic against this mock: a pure, executable
//! model of the driver surface (create/delete, compile/link status,
//! info logs, location lookup) that counts every create and delete call.
//! Whether compilation and linking succeed, and what the logs say, is
//! configuration: the mock stands for a driver in either mood.

use vstd::prelude::*;

verus! {

/// No two elements of the sequence are equal.
pub open spec fn unique_seq<T>(s: Seq<T>) -> bool {
    forall|i: int, j: int| 0 <= i < j < s.len() ==> s[i] != s[j]
}

/// Pushing keeps every element and adds the new one.
proof fn lemma_push_contains<T>(s: Seq<T>, x: T)
    ensures
        forall|y: T| s.contains(y) ==> #[trigger] s.push(x).contains(y),
        s.push(x).contains(x),
{
    assert forall|y: T| s.contains(y) implies #[trigger] s.push(x).contains(y) by {
        let j = choose|j: int| 0 <= j < s.len() && s[j] == y;
        assert(s.push(x)[j] == y);
    }
    assert(s.push(x)[s.len() as int] == x);
}

/// Pushing a fresh element keeps the sequence duplicate-free.
proof fn lemma_push_unique<T>(s: Seq<T>, x: T)
    requires
        unique_seq(s),
        !s.contains(x),
    ensures
        unique_seq(s.push(x)),
{
    assert forall|i: int, j: int| 0 <= i < j < s.push(x).len() implies s.push(x)[i] != s.push(
        x,
    )[j] by {
        if j == s.len() {
            assert(s.push(x)[i] == s[i]);
            assert(s.contains(s[i]));
        } else {
            assert(s.push(x)[i] == s[i] && s.push(x)[j] == s[j]);
        }
    }
}

/// A sequence whose elements all lie below `bound` does not contain it.
proof fn lemma_bound_not_contains(s: Seq<u32>, bound: u32)
    requires
        forall|i: int| 0 <= i < s.len() ==> #[trigger] s[i] < bound,
    ensures
        !s.contains(bound),
{
    if s.contains(bound) {
        let j = choose|j: int| 0 <= j < s.len() && s[j] == bound;
    }
}

/// Removes the (unique) occurrence of `h` from `v`.
fn remove_value_u32(v: &mut Vec<u32>, h: u32)
    requires
        unique_seq(old(v)@),
        old(v)@.contains(h),
    ensures
        unique_seq(final(v)@),
        final(v)@.len() == old(v)@.len() - 1,
        !final(v)@.contains(h),
        forall|x: u32| x != h ==> final(v)@.contains(x) == old(v)@.contains(x),
{
    let ghost orig = v@;
    let n = v.len();
    let mut i: usize = 0;
    while v[i] != h
        invariant
            v@ == orig,
            v@.len() == n,
            0 <= i < v@.len(),
            exists|j: int| i <= j < v@.len() && v@[j] == h,
            forall|j: int| 0 <= j < i ==> v@[j] != h,
        decreases v@.len() - i,
    {
        i = i + 1;
        proof {
            let j = choose|j: int| i - 1 <= j < v@.len() && v@[j] == h;
            assert(i <= j < v@.len() && v@[j] == h);
        }
    }
    let ghost idx = i as int;
    v.remove(i);
    proof {
        orig.remove_ensures(idx);
        assert forall|x: u32| x != h implies v@.contains(x) == orig.contains(x) by {
            if orig.contains(x) {
                let j = choose|j: int| 0 <= j < orig.len() && orig[j] == x;
                if j < idx {
                    assert(v@[j] == x);
                } else {
                    assert(j != idx);
                    assert(v@[j - 1] == x);
                }
                assert(v@.contains(x));
            }
            if v@.contains(x) {
                let j = choose|j: int| 0 <= j < v@.len() && v@[j] == x;
                if j < idx {
                    assert(orig[j] == x);
                } else {
                    assert(orig[j + 1] == x);
                }
                assert(orig.contains(x));
            }
        }
        assert forall|j: int, j2: int| 0 <= j < j2 < v@.len() implies v@[j] != v@[j2] by {
            let oj = if j < idx { j } else { j + 1 };
            let oj2 = if j2 < idx { j2 } else { j2 + 1 };
            assert(v@[j] == orig[oj]);
            assert(v@[j2] == orig[oj2]);
        }
        assert(!v@.contains(h)) by {
            if v@.contains(h) {
                let j = choose|j: int| 0 <= j < v@.len() && v@[j] == h;
                if j < idx {
                    assert(orig[j] == h && orig[idx] == h);
                } else {
                    assert(orig[j + 1] == h && orig[idx] == h);
                }
            }
        }
    }
}

/// Removes the (unique) occurrence of the pair `(p, s)` from `v`.
fn remove_value_pair(v: &mut Vec<(u32, u32)>, p: u32, s: u32)
    requires
        unique_seq(old(v)@),
        old(v)@.contains((p, s)),
    ensures
        unique_seq(final(v)@),
        final(v)@.len() == old(v)@.len() - 1,
        !final(v)@.contains((p, s)),
        forall|x: (u32, u32)| x != (p, s) ==> final(v)@.contains(x) == old(v)@.contains(x),
{
    let ghost orig = v@;
    let n = v.len();
    let mut i: usize = 0;
    while !(v[i].0 == p && v[i].1 == s)
        invariant
            v@ == orig,
            v@.len() == n,
            0 <= i < v@.len(),
            exists|j: int| i <= j < v@.len() && v@[j] == (p, s),
            forall|j: int| 0 <= j < i ==> v@[j] != (p, s),
        decreases v@.len() - i,
    {
        i = i + 1;
        proof {
            let j = choose|j: int| i - 1 <= j < v@.len() && v@[j] == (p, s);
            assert(i <= j < v@.len() && v@[j] == (p, s));
        }
    }
    let ghost idx = i as int;
    v.remove(i);
    proof {
        orig.remove_ensures(idx);
        assert forall|x: (u32, u32)| x != (p, s) implies v@.contains(x) == orig.contains(x) by {
            if orig.contains(x) {
                let j = choose|j: int| 0 <= j < orig.len() && orig[j] == x;
                if j < idx {
                    assert(v@[j] == x);
                } else {
                    assert(j != idx);
                    assert(v@[j - 1] == x);
                }
                assert(v@.contains(x));
            }
            if v@.contains(x) {
                let j = choose|j: int| 0 <= j < v@.len() && v@[j] == x;
                if j < idx {
                    assert(orig[j] == x);
                } else {
                    assert(orig[j + 1] == x);
                }
                assert(orig.contains(x));
            }
        }
        assert forall|j: int, j2: int| 0 <= j < j2 < v@.len() implies v@[j] != v@[j2] by {
            let oj = if j < idx { j } else { j + 1 };
            let oj2 = if j2 < idx { j2 } else { j2 + 1 };
            assert(v@[j] == orig[oj]);
            assert(v@[j2] == orig[oj2]);
        }
        assert(!v@.contains((p, s))) by {
            if v@.contains((p, s)) {
                let j = choose|j: int| 0 <= j < v@.len() && v@[j] == (p, s);
                if j < idx {
                    assert(orig[j] == (p, s) && orig[idx] == (p, s));
                } else {
                    assert(orig[j + 1] == (p, s) && orig[idx] == (p, s));
                }
            }
        }
    }
}

/// The mock driver state: live objects, call counters and the configured
/// behaviour. Location tables are global here rather than per program,
/// which suffices for a model that hosts one linked program at a time.
pub struct MockGpu {
    /// The next handle to hand out; handles are never reused.
    pub next_handle: u32,
    /// Shader handles created and not yet deleted.
    pub live_shaders: Vec<u32>,
    /// Program handles created and not yet deleted.
    pub live_programs: Vec<u32>,
    /// (program, shader) attachment pairs.
    pub attachments: Vec<(u32, u32)>,
    /// Number of object-create calls (shaders and programs).
    pub creates: u64,
    /// Number of object-delete calls (shaders and programs).
    pub deletes: u64,
    /// Number of compile calls.
    pub compiles: u64,
    /// Number of link calls.
    pub links: u64,
    /// Source texts handed to compile calls, in order.
    pub compiled_sources: Vec<String>,
    /// The program currently in use; 0 means none.
    pub active_program: u32,
    /// Whether compile calls report success.
    pub compile_ok: bool,
    /// Whether link calls report success.
    pub link_ok: bool,
    /// The info log reported for a failed compile.
    pub compile_log: String,
    /// The info log reported for a failed link.
    pub link_log: String,
    /// Attribute names; the location of a name is its index.
    pub attrib_names: Vec<String>,
    /// Uniform names; the location of a name is its index.
    pub uniform_names: Vec<String>,
}

impl MockGpu {
    pub open spec fn shader_live(self, h: u32) -> bool {
        self.live_shaders@.contains(h)
    }

    pub open spec fn program_live(self, h: u32) -> bool {
        self.live_programs@.contains(h)
    }

    pub open spec fn attached(self, p: u32, s: u32) -> bool {
        self.attachments@.contains((p, s))
    }

    pub open spec fn shader_attached(self, s: u32) -> bool {
        exists|p: u32| self.attached(p, s)
    }

    /// Creates minus deletes: the number of live objects a leak-free
    /// client leaves behind.
    pub open spec fn balance(self) -> int {
        self.creates - self.deletes
    }

    pub open spec fn wf(self) -> bool {
        &&& 1 <= self.next_handle
        &&& unique_seq(self.live_shaders@)
        &&& unique_seq(self.live_programs@)
        &&& unique_seq(self.attachments@)
        &&& forall|i: int|
            0 <= i < self.live_shaders@.len() ==> 1 <= #[trigger] self.live_shaders@[i]
                < self.next_handle
        &&& forall|i: int|
            0 <= i < self.live_programs@.len() ==> 1 <= #[trigger] self.live_programs@[i]
                < self.next_handle
        &&& forall|i: int|
            0 <= i < self.attachments@.len() ==> self.program_live(
                (#[trigger] self.attachments@[i]).0,
            ) && self.shader_live(self.attachments@[i].1)
        &&& self.creates == self.deletes + self.live_shaders@.len() + self.live_programs@.len()
        &&& self.attrib_names@.len() <= 0x7fff_ffff
        &&& self.uniform_names@.len() <= 0x7fff_ffff
    }

    /// The configured behaviour: status flags, logs and name tables.
    pub open spec fn same_config(self, o: MockGpu) -> bool {
        &&& self.compile_ok == o.compile_ok
        &&& self.link_ok == o.link_ok
        &&& self.compile_log == o.compile_log
        &&& self.link_log == o.link_log
        &&& self.attrib_names == o.attrib_names
        &&& self.uniform_names == o.uniform_names
    }

    /// A fresh driver with the given behaviour and no objects.
    pub fn new(
        compile_ok: bool,
        link_ok: bool,
        compile_log: String,
        link_log: String,
        attrib_names: Vec<String>,
        uniform_names: Vec<String>,
    ) -> (g: MockGpu)
        requires
            attrib_names@.len() <= 0x7fff_ffff,
            uniform_names@.len() <= 0x7fff_ffff,
        ensures
            g.wf(),
            g.creates == 0 && g.deletes == 0 && g.compiles == 0 && g.links == 0,
            g.live_shaders@.len() == 0,
            g.live_programs@.len() == 0,
            g.attachments@.len() == 0,
            g.compiled_sources@.len() == 0,
            g.active_program == 0,
            g.compile_ok == compile_ok,
            g.link_ok == link_ok,
            g.compile_log == compile_log,
            g.link_log == link_log,
            g.attrib_names == attrib_names,
            g.uniform_names == uniform_names,
    {
        MockGpu {
            next_handle: 1,
            live_shaders: Vec::new(),
            live_programs: Vec::new(),
            attachments: Vec::new(),
            creates: 0,
            deletes: 0,
            compiles: 0,
            links: 0,
            compiled_sources: Vec::new(),
            active_program: 0,
            compile_ok,
            link_ok,
            compile_log,
            link_log,
            attrib_names,
            uniform_names,
        }
    }

    /// Allocates a fresh shader object.
    pub fn create_shader(&mut self) -> (h: u32)
        requires
            old(self).wf(),
            old(self).next_handle < u32::MAX,
            old(self).creates < u64::MAX,
        ensures
            final(self).wf(),
            h == old(self).next_handle && 1 <= h,
            !old(self).shader_live(h) && !old(self).program_live(h),
            final(self).shader_live(h),
            final(self).live_shaders@ == old(self).live_shaders@.push(h),
            final(self).live_programs == old(self).live_programs,
            final(self).attachments == old(self).attachments,
            final(self).creates == old(self).creates + 1,
            final(self).deletes == old(self).deletes,
            final(self).compiles == old(self).compiles,
            final(self).links == old(self).links,
            final(self).compiled_sources == old(self).compiled_sources,
            final(self).active_program == old(self).active_program,
            final(self).same_config(*old(self)),
            final(self).balance() == old(self).balance() + 1,
            final(self).next_handle == old(self).next_handle + 1,
    {
        let h = self.next_handle;
        proof {
            lemma_bound_not_contains(self.live_shaders@, h);
            lemma_bound_not_contains(self.live_programs@, h);
            lemma_push_contains(self.live_shaders@, h);
            lemma_push_unique(self.live_shaders@, h);
        }
        self.next_handle = self.next_handle + 1;
        self.live_shaders.push(h);
        self.creates = self.creates + 1;
        proof {
            assert forall|i: int| 0 <= i < self.attachments@.len() implies self.program_live(
                (#[trigger] self.attachments@[i]).0,
            ) && self.shader_live(self.attachments@[i].1) by {
                assert(old(self).program_live(self.attachments@[i].0));
                assert(old(self).shader_live(self.attachments@[i].1));
            }
        }
        h
    }

    /// Releases a shader object. A shader still attached to a program
    /// must be detached first.
    pub fn delete_shader(&mut self, h: u32)
        requires
            old(self).wf(),
            old(self).shader_live(h),
            !old(self).shader_attached(h),
        ensures
            final(self).wf(),
            !final(self).shader_live(h),
            forall|x: u32| x != h ==> final(self).shader_live(x) == old(self).shader_live(x),
            final(self).live_shaders@.len() == old(self).live_shaders@.len() - 1,
            final(self).live_programs == old(self).live_programs,
            final(self).attachments == old(self).attachments,
            final(self).creates == old(self).creates,
            final(self).deletes == old(self).deletes + 1,
            final(self).compiles == old(self).compiles,
            final(self).links == old(self).links,
            final(self).compiled_sources == old(self).compiled_sources,
            final(self).active_program == old(self).active_program,
            final(self).same_config(*old(self)),
            final(self).balance() == old(self).balance() - 1,
            final(self).next_handle == old(self).next_handle,
    {
        proof {
            assert(old(self).live_shaders@.len() >= 1) by {
                let j = choose|j: int|
                    0 <= j < old(self).live_shaders@.len() && old(self).live_shaders@[j] == h;
            }
        }
        remove_value_u32(&mut self.live_shaders, h);
        self.deletes = self.deletes + 1;
        proof {
            assert forall|i: int| 0 <= i < self.live_shaders@.len() implies 1 <= #[trigger] self
                .live_shaders@[i] < self.next_handle by {
                assert(self.live_shaders@.contains(self.live_shaders@[i]));
                assert(old(self).shader_live(self.live_shaders@[i]));
                let j = choose|j: int|
                    0 <= j < old(self).live_shaders@.len() && old(self).live_shaders@[j]
                        == self.live_shaders@[i];
            }
            assert forall|i: int| 0 <= i < self.attachments@.len() implies self.program_live(
                (#[trigger] self.attachments@[i]).0,
            ) && self.shader_live(self.attachments@[i].1) by {
                let pr = self.attachments@[i];
                assert(self.attachments@.contains(pr));
                assert(old(self).attached(pr.0, pr.1));
                assert(old(self).shader_attached(pr.1) || !old(self).attached(pr.0, pr.1));
                assert(pr.1 != h);
                assert(old(self).shader_live(pr.1));
            }
        }
    }

    /// Allocates a fresh program object.
    pub fn create_program(&mut self) -> (h: u32)
        requires
            old(self).wf(),
            old(self).next_handle < u32::MAX,
            old(self).creates < u64::MAX,
        ensures
            final(self).wf(),
            h == old(self).next_handle && 1 <= h,
            !old(self).shader_live(h) && !old(self).program_live(h),
            final(self).program_live(h),
            final(self).live_programs@ == old(self).live_programs@.push(h),
            final(self).live_shaders == old(self).live_shaders,
            final(self).attachments == old(self).attachments,
            final(self).creates == old(self).creates + 1,
            final(self).deletes == old(self).deletes,
            final(self).compiles == old(self).compiles,
            final(self).links == old(self).links,
            final(self).compiled_sources == old(self).compiled_sources,
            final(self).active_program == old(self).active_program,
            final(self).same_config(*old(self)),
            final(self).balance() == old(self).balance() + 1,
            final(self).next_handle == old(self).next_handle + 1,
    {
        let h = self.next_handle;
        proof {
            lemma_bound_not_contains(self.live_shaders@, h);
            lemma_bound_not_contains(self.live_programs@, h);
            lemma_push_contains(self.live_programs@, h);
            lemma_push_unique(self.live_programs@, h);
        }
        self.next_handle = self.next_handle + 1;
        self.live_programs.push(h);
        self.creates = self.creates + 1;
        proof {
            assert forall|i: int| 0 <= i < self.attachments@.len() implies self.program_live(
                (#[trigger] self.attachments@[i]).0,
            ) && self.shader_live(self.attachments@[i].1) by {
                assert(old(self).program_live(self.attachments@[i].0));
                assert(old(self).shader_live(self.attachments@[i].1));
            }
        }
        h
    }

    /// Releases a program object. Its attachments must be detached first.
    pub fn delete_program(&mut self, h: u32)
        requires
            old(self).wf(),
            old(self).program_live(h),
            forall|s: u32| !old(self).attached(h, s),
        ensures
            final(self).wf(),
            !final(self).program_live(h),
            forall|x: u32| x != h ==> final(self).program_live(x) == old(self).program_live(x),
            final(self).live_programs@.len() == old(self).live_programs@.len() - 1,
            final(self).live_shaders == old(self).live_shaders,
            final(self).attachments == old(self).attachments,
            final(self).creates == old(self).creates,
            final(self).deletes == old(self).deletes + 1,
            final(self).compiles == old(self).compiles,
            final(self).links == old(self).links,
            final(self).compiled_sources == old(self).compiled_sources,
            final(self).active_program == old(self).active_program,
            final(self).same_config(*old(self)),
            final(self).balance() == old(self).balance() - 1,
            final(self).next_handle == old(self).next_handle,
    {
        proof {
            assert(old(self).live_programs@.len() >= 1) by {
                let j = choose|j: int|
                    0 <= j < old(self).live_programs@.len() && old(self).live_programs@[j] == h;
            }
        }
        remove_value_u32(&mut self.live_programs, h);
        self.deletes = self.deletes + 1;
        proof {
            assert forall|i: int| 0 <= i < self.live_programs@.len() implies 1 <= #[trigger] self
                .live_programs@[i] < self.next_handle by {
                assert(self.live_programs@.contains(self.live_programs@[i]));
                assert(old(self).program_live(self.live_programs@[i]));
                let j = choose|j: int|
                    0 <= j < old(self).live_programs@.len() && old(self).live_programs@[j]
                        == self.live_programs@[i];
            }
            assert forall|i: int| 0 <= i < self.attachments@.len() implies self.program_live(
                (#[trigger] self.attachments@[i]).0,
            ) && self.shader_live(self.attachments@[i].1) by {
                let pr = self.attachments@[i];
                assert(self.attachments@.contains(pr));
                assert(old(self).attached(pr.0, pr.1));
                assert(pr.0 != h);
                assert(old(self).program_live(pr.0));
            }
        }
    }

    /// Attaches a shader to a program.
    pub fn attach_shader(&mut self, p: u32, s: u32)
        requires
            old(self).wf(),
            old(self).program_live(p),
            old(self).shader_live(s),
            !old(self).attached(p, s),
        ensures
            final(self).wf(),
            final(self).attachments@ == old(self).attachments@.push((p, s)),
            final(self).attached(p, s),
            forall|p2: u32, s2: u32|
                (p2, s2) != (p, s) ==> final(self).attached(p2, s2) == old(self).attached(p2, s2),
            final(self).live_shaders == old(self).live_shaders,
            final(self).live_programs == old(self).live_programs,
            final(self).creates == old(self).creates,
            final(self).deletes == old(self).deletes,
            final(self).compiles == old(self).compiles,
            final(self).links == old(self).links,
            final(self).compiled_sources == old(self).compiled_sources,
            final(self).active_program == old(self).active_program,
            final(self).same_config(*old(self)),
            final(self).next_handle == old(self).next_handle,
    {
        proof {
            lemma_push_contains(self.attachments@, (p, s));
            lemma_push_unique(self.attachments@, (p, s));
        }
        self.attachments.push((p, s));
        proof {
            assert forall|i: int| 0 <= i < self.attachments@.len() implies self.program_live(
                (#[trigger] self.attachments@[i]).0,
            ) && self.shader_live(self.attachments@[i].1) by {
                if i < old(self).attachments@.len() {
                    assert(self.attachments@[i] == old(self).attachments@[i]);
                    assert(old(self).program_live(self.attachments@[i].0));
                    assert(old(self).shader_live(self.attachments@[i].1));
                } else {
                    assert(self.attachments@[i] == (p, s));
                }
            }
            assert forall|p2: u32, s2: u32| (p2, s2) != (p, s) implies final(self).attached(p2, s2)
                == old(self).attached(p2, s2) by {
                if old(self).attachments@.contains((p2, s2)) {
                    let j = choose|j: int|
                        0 <= j < old(self).attachments@.len() && old(self).attachments@[j] == (
                        p2,
                        s2,
                        );
                    assert(self.attachments@[j] == (p2, s2));
                }
                if self.attachments@.contains((p2, s2)) {
                    let j = choose|j: int|
                        0 <= j < self.attachments@.len() && self.attachments@[j] == (p2, s2);
                    assert(j < old(self).attachments@.len());
                    assert(old(self).attachments@[j] == (p2, s2));
                }
            }
        }
    }

    /// Detaches a shader from a program.
    pub fn detach_shader(&mut self, p: u32, s: u32)
        requires
            old(self).wf(),
            old(self).attached(p, s),
        ensures
            final(self).wf(),
            !final(self).attached(p, s),
            forall|p2: u32, s2: u32|
                (p2, s2) != (p, s) ==> final(self).attached(p2, s2) == old(self).attached(p2, s2),
            final(self).attachments@.len() == old(self).attachments@.len() - 1,
            final(self).live_shaders == old(self).live_shaders,
            final(self).live_programs == old(self).live_programs,
            final(self).creates == old(self).creates,
            final(self).deletes == old(self).deletes,
            final(self).compiles == old(self).compiles,
            final(self).links == old(self).links,
            final(self).compiled_sources == old(self).compiled_sources,
            final(self).active_program == old(self).active_program,
            final(self).same_config(*old(self)),
            final(self).next_handle == old(self).next_handle,
    {
        remove_value_pair(&mut self.attachments, p, s);
        proof {
            assert forall|i: int| 0 <= i < self.attachments@.len() implies self.program_live(
                (#[trigger] self.attachments@[i]).0,
            ) && self.shader_live(self.attachments@[i].1) by {
                let pr = self.attachments@[i];
                assert(self.attachments@.contains(pr));
                assert(old(self).attachments@.contains(pr));
                let j = choose|j: int|
                    0 <= j < old(self).attachments@.len() && old(self).attachments@[j] == pr;
                assert(old(self).program_live(pr.0) && old(self).shader_live(pr.1));
            }
        }
    }

    /// Attaches source text to a shader object and runs the compiler on
    /// it. Whether it succeeded is reported by `get_compile_status`.
    pub fn compile_shader(&mut self, h: u32, source: &str)
        requires
            old(self).wf(),
            old(self).shader_live(h),
            old(self).compiles < u64::MAX,
        ensures
            final(self).wf(),
            final(self).compiles == old(self).compiles + 1,
            final(self).compiled_sources@.len() == old(self).compiled_sources@.len() + 1,
            final(self).compiled_sources@[final(self).compiled_sources@.len() - 1]@ == source@,
            forall|i: int|
                0 <= i < old(self).compiled_sources@.len() ==> final(self).compiled_sources@[i]
                    == old(self).compiled_sources@[i],
            final(self).live_shaders == old(self).live_shaders,
            final(self).live_programs == old(self).live_programs,
            final(self).attachments == old(self).attachments,
            final(self).creates == old(self).creates,
            final(self).deletes == old(self).deletes,
            final(self).links == old(self).links,
            final(self).active_program == old(self).active_program,
            final(self).same_config(*old(self)),
            final(self).next_handle == old(self).next_handle,
    {
        self.compiled_sources.push(source.to_owned());
        self.compiles = self.compiles + 1;
    }

    /// Runs the linker on a program object. Whether it succeeded is
    /// reported by `get_link_status`.
    pub fn link_program(&mut self, p: u32)
        requires
            old(self).wf(),
            old(self).program_live(p),
            old(self).links < u64::MAX,
        ensures
            final(self).wf(),
            final(self).links == old(self).links + 1,
            final(self).live_shaders == old(self).live_shaders,
            final(self).live_programs == old(self).live_programs,
            final(self).attachments == old(self).attachments,
            final(self).creates == old(self).creates,
            final(self).deletes == old(self).deletes,
            final(self).compiles == old(self).compiles,
            final(self).compiled_sources == old(self).compiled_sources,
            final(self).active_program == old(self).active_program,
            final(self).same_config(*old(self)),
            final(self).next_handle == old(self).next_handle,
    {
        self.links = self.links + 1;
    }

    /// The compile-status flag of the most recent compile call.
    pub fn get_compile_status(&self) -> (b: bool)
        ensures
            b == self.compile_ok,
    {
        self.compile_ok
    }

    /// The link-status flag of the most recent link call.
    pub fn get_link_status(&self) -> (b: bool)
        ensures
            b == self.link_ok,
    {
        self.link_ok
    }

    /// The info log of a failed compile.
    pub fn compile_info_log(&self) -> (s: String)
        ensures
            s == self.compile_log,
    {
        self.compile_log.clone()
    }

    /// The info log of a failed link.
    pub fn link_info_log(&self) -> (s: String)
        ensures
            s == self.link_log,
    {
        self.link_log.clone()
    }

    /// Makes `p` the current rendering program; 0 clears it.
    pub fn use_program(&mut self, p: u32)
        requires
            old(self).wf(),
            p == 0 || old(self).program_live(p),
        ensures
            final(self).wf(),
            final(self).active_program == p,
            final(self).live_shaders == old(self).live_shaders,
            final(self).live_programs == old(self).live_programs,
            final(self).attachments == old(self).attachments,
            final(self).creates == old(self).creates,
            final(self).deletes == old(self).deletes,
            final(self).compiles == old(self).compiles,
            final(self).links == old(self).links,
            final(self).compiled_sources == old(self).compiled_sources,
            final(self).same_config(*old(self)),
            final(self).next_handle == old(self).next_handle,
    {
        self.active_program = p;
    }
}

/// First index of `name` in `names`, or -1 when absent: the sentinel
/// convention of the driver's location lookup.
fn find_name(names: &Vec<String>, name: &String) -> (loc: i32)
    requires
        names@.len() <= 0x7fff_ffff,
    ensures
        loc == -1 || 0 <= loc < names@.len(),
        loc == -1 ==> forall|i: int| 0 <= i < names@.len() ==> (#[trigger] names@[i])@ != name@,
        loc != -1 ==> names@[loc as int]@ == name@ && forall|i: int|
            0 <= i < loc ==> (#[trigger] names@[i])@ != name@,
{
    let mut i: usize = 0;
    while i < names.len()
        invariant
            names@.len() <= 0x7fff_ffff,
            0 <= i <= names@.len(),
            forall|j: int| 0 <= j < i ==> (#[trigger] names@[j])@ != name@,
        decreases names@.len() - i,
    {
        if names[i] == *name {
            return i as i32;
        }
        i = i + 1;
    }
    -1
}

impl MockGpu {
    /// The location of a named vertex attribute, or -1 when absent.
    pub fn get_attrib_location(&self, name: &String) -> (loc: i32)
        requires
            self.wf(),
        ensures
            loc == -1 || 0 <= loc < self.attrib_names@.len(),
            loc == -1 ==> forall|i: int|
                0 <= i < self.attrib_names@.len() ==> (#[trigger] self.attrib_names@[i])@ != name@,
            loc != -1 ==> self.attrib_names@[loc as int]@ == name@,
    {
        find_name(&self.attrib_names, name)
    }

    /// The location of a named uniform, or -1 when absent.
    pub fn get_uniform_location(&self, name: &String) -> (loc: i32)
        requires
            self.wf(),
        ensures
            loc == -1 || 0 <= loc < self.uniform_names@.len(),
            loc == -1 ==> forall|i: int|
                0 <= i < self.uniform_names@.len() ==> (#[trigger] self.uniform_names@[i])@
                    != name@,
            loc != -1 ==> self.uniform_names@[loc as int]@ == name@,
    {
        find_name(&self.uniform_names, name)
    }
}

} // verus!

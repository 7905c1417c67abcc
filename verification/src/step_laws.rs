//! When a mixed step is added to a packet, and what is added.
use vstd::prelude::*;

use crate::mixed_step_emit::{
    all_bound, bound_variant, binds, describes, duplicated, fault, indices_fault, message_text,
    names, object_fault, object_id, objects_fault, present, repeats, runs, step_sections, taken,
    variants_fault, Encoded, Format, MixedError, ObjectSection, PayloadKind, SectionData, Spec,
    StepManifest, Variant,
};
use crate::order::views;

verus! {

/// Whether an object is sound: of the format's version, for this machine, with the capability that
/// objects must have, of at least a byte and at most 64 MiB, for the machine that its kind is for,
/// and with its capability's symbol at its capability's version. A cubin must also be sound itself.
pub open spec fn is_sound(f: Format, n_cu: u32, o: ObjectSection) -> bool {
    &&& o.kind == PayloadKind::Cubin || o.kind == PayloadKind::Hsaco
    &&& o.version == f.version && o.capability_version == f.version
    &&& o.n_cu == n_cu
    &&& o.capability@ == f.object_capability@
    &&& 1 <= o.bytes@.len() <= 64 * 1024 * 1024
    &&& o.kind == PayloadKind::Cubin ==> o.machine == Some(190u16) && o.sound_cubin
    &&& o.kind == PayloadKind::Hsaco ==> o.machine == Some(224u16)
    &&& o.symbol == Some(f.version)
}

/// An object is refused exactly where it is not sound, and as a bad cubin only where all else of it
/// is.
pub proof fn unsound_objects_are_refused(f: Format, n_cu: u32, o: ObjectSection)
    ensures
        object_fault(f, n_cu, o) is None <==> is_sound(f, n_cu, o),
        object_fault(f, n_cu, o) == Some(MixedError::BadCubin) <==> !is_sound(f, n_cu, o)
            && is_sound(f, n_cu, ObjectSection { sound_cubin: true, ..o }),
        object_fault(f, n_cu, o) matches Some(e) ==> e == MixedError::BadObject || e
            == MixedError::BadCubin,
{
}

proof fn objects_are_sound(f: Format, n_cu: u32, os: Seq<ObjectSection>, k: int)
    requires
        0 <= k <= os.len(),
    ensures
        objects_fault(f, n_cu, os, k) is None <==> forall|i: int|
            k <= i < os.len() ==> is_sound(f, n_cu, #[trigger] os[i]),
    decreases os.len() - k,
{
    if k < os.len() {
        objects_are_sound(f, n_cu, os, k + 1);
        unsound_objects_are_refused(f, n_cu, os[k]);
        if forall|i: int| k + 1 <= i < os.len() ==> is_sound(f, n_cu, #[trigger] os[i]) {
            if is_sound(f, n_cu, os[k]) {
                assert forall|i: int| k <= i < os.len() implies is_sound(
                    f,
                    n_cu,
                    #[trigger] os[i],
                ) by {
                    if i == k {
                    }
                }
            }
        }
    }
}

/// Whether a variant names each of its objects once, and none that is not there.
pub open spec fn names_objects_once(v: Seq<usize>, n: nat) -> bool {
    &&& forall|i: int| 0 <= i < v.len() ==> #[trigger] v[i] < n
    &&& forall|i: int, j: int| 0 <= i < j < v.len() ==> #[trigger] v[i] != #[trigger] v[j]
}

proof fn indices_are_sound(v: Seq<usize>, n: nat, k: int)
    requires
        0 <= k <= v.len(),
    ensures
        indices_fault(v, n, k) is None <==> {
            &&& forall|i: int| k <= i < v.len() ==> #[trigger] v[i] < n
            &&& forall|i: int| k <= i < v.len() ==> !#[trigger] repeats(v, i)
        },
    decreases v.len() - k,
{
    if k < v.len() {
        indices_are_sound(v, n, k + 1);
        if indices_fault(v, n, k) is None {
            assert forall|i: int| k <= i < v.len() implies #[trigger] v[i] < n by {
                if i == k {
                }
            }
            assert forall|i: int| k <= i < v.len() implies !#[trigger] repeats(v, i) by {
                if i == k {
                }
            }
        }
        if (forall|i: int| k <= i < v.len() ==> #[trigger] v[i] < n) && (forall|i: int|
            k <= i < v.len() ==> !#[trigger] repeats(v, i)) {
            assert(!repeats(v, k));
            assert(v[k] < n);
        }
    }
}

proof fn named_once(v: Seq<usize>, n: nat)
    ensures
        indices_fault(v, n, 0) is None <==> names_objects_once(v, n),
{
    indices_are_sound(v, n, 0);
    if indices_fault(v, n, 0) is None {
        assert forall|i: int, j: int| 0 <= i < j < v.len() implies #[trigger] v[i]
            != #[trigger] v[j] by {
            assert(!repeats(v, j));
        }
    }
    if names_objects_once(v, n) {
        assert forall|i: int| 0 <= i < v.len() implies !#[trigger] repeats(v, i) by {
            if repeats(v, i) {
                let j = choose|j: int| 0 <= j < i && #[trigger] v[j] == v[i];
                assert(v[j] != v[i]);
            }
        }
    }
}

/// Whether a variant is sound: its program is there and has its rows, and it names each of its
/// objects once and none that is not there.
pub open spec fn is_sound_variant(v: Variant, rows: Seq<u32>, n: nat) -> bool {
    &&& v.program_index < rows.len()
    &&& rows[v.program_index as int] == v.rows
    &&& names_objects_once(v.object_indices@, n)
}

proof fn variants_are_sound(vs: Seq<Variant>, rows: Seq<u32>, n: nat, k: int)
    requires
        0 <= k <= vs.len(),
    ensures
        variants_fault(vs, rows, n, k) is None <==> forall|i: int|
            k <= i < vs.len() ==> is_sound_variant(#[trigger] vs[i], rows, n),
    decreases vs.len() - k,
{
    if k < vs.len() {
        variants_are_sound(vs, rows, n, k + 1);
        named_once(vs[k].object_indices@, n);
        if forall|i: int| k + 1 <= i < vs.len() ==> is_sound_variant(#[trigger] vs[i], rows, n) {
            if is_sound_variant(vs[k], rows, n) {
                assert forall|i: int| k <= i < vs.len() implies is_sound_variant(
                    #[trigger] vs[i],
                    rows,
                    n,
                ) by {
                    if i == k {
                    }
                }
            }
        }
    }
}

/// The kind and the name that section `i` of a step has: the programs', the metadata's, and those of
/// its objects in order.
pub open spec fn step_id(f: Format, s: Spec, i: int) -> (u32, Seq<char>) {
    if i == 0 {
        (f.sect_programs, s.programs.section@)
    } else if i == 1 {
        (f.sect_metadata, f.metadata_section@)
    } else {
        let o = s.objects@[i - 2];
        (
            match o.kind {
                PayloadKind::Programs => f.sect_programs,
                PayloadKind::Cubin => f.sect_cubin,
                PayloadKind::Hsaco => f.sect_hsaco,
            },
            o.section@,
        )
    }
}

/// Whether no object shares its kind and name with a section of the step before it.
pub open spec fn objects_are_apart(f: Format, s: Spec) -> bool {
    forall|i: int, j: int|
        0 <= i < j < s.objects@.len() + 2 && j >= 2 ==> #[trigger] step_id(f, s, i)
            != #[trigger] step_id(f, s, j)
}

/// Whether no section of the packet shares its kind and name with one of the step's.
pub open spec fn packet_is_apart(f: Format, s: Spec, sections: Seq<SectionData>) -> bool {
    forall|i: int, j: int|
        0 <= i < s.objects@.len() + 2 && 0 <= j < sections.len() ==> #[trigger] step_id(f, s, i)
            != ((#[trigger] sections[j]).kind, sections[j].name@)
}

proof fn taken_is_an_id(f: Format, s: Spec, n: int, id: (u32, Seq<char>))
    requires
        0 <= n <= s.objects@.len(),
    ensures
        taken(f, s, n, id) <==> exists|i: int| 0 <= i < n + 2 && #[trigger] step_id(f, s, i) == id,
{
    if taken(f, s, n, id) {
        if id == (f.sect_programs, s.programs.section@) {
            assert(step_id(f, s, 0) == id);
        } else if id == (f.sect_metadata, f.metadata_section@) {
            assert(step_id(f, s, 1) == id);
        } else {
            let i = choose|i: int| 0 <= i < n && #[trigger] object_id(f, s.objects@, i) == id;
            assert(step_id(f, s, i + 2) == id);
        }
    }
    if exists|i: int| 0 <= i < n + 2 && #[trigger] step_id(f, s, i) == id {
        let i = choose|i: int| 0 <= i < n + 2 && #[trigger] step_id(f, s, i) == id;
        if i >= 2 {
            assert(object_id(f, s.objects@, i - 2) == id);
        }
    }
}

proof fn apart_is_not_duplicated(f: Format, s: Spec)
    ensures
        !duplicated(f, s) <==> objects_are_apart(f, s),
{
    if !duplicated(f, s) {
        assert forall|i: int, j: int| 0 <= i < j < s.objects@.len() + 2 && j >= 2 implies
            #[trigger] step_id(f, s, i) != #[trigger] step_id(f, s, j) by {
            let id = object_id(f, s.objects@, j - 2);
            assert(!taken(f, s, j - 2, id));
            taken_is_an_id(f, s, j - 2, id);
            assert(step_id(f, s, j) == id);
        }
    }
    if duplicated(f, s) {
        let k = choose|k: int|
            0 <= k < s.objects@.len() && taken(f, s, k, #[trigger] object_id(f, s.objects@, k));
        let id = object_id(f, s.objects@, k);
        taken_is_an_id(f, s, k, id);
        let i = choose|i: int| 0 <= i < k + 2 && #[trigger] step_id(f, s, i) == id;
        assert(step_id(f, s, k + 2) == id);
    }
}

proof fn apart_is_not_present(f: Format, s: Spec, sections: Seq<SectionData>)
    ensures
        !present(f, s, sections) <==> packet_is_apart(f, s, sections),
{
    let n = s.objects@.len() as int;
    if !present(f, s, sections) {
        assert forall|i: int, j: int|
            0 <= i < n + 2 && 0 <= j < sections.len() implies #[trigger] step_id(f, s, i) != ((
        #[trigger] sections[j]).kind, sections[j].name@) by {
            let id = (sections[j].kind, sections[j].name@);
            assert(!taken(f, s, n, id));
            taken_is_an_id(f, s, n, id);
        }
    }
    if present(f, s, sections) {
        let j = choose|j: int|
            0 <= j < sections.len() && taken(
                f,
                s,
                n,
                ((#[trigger] sections[j]).kind, sections[j].name@),
            );
        let id = (sections[j].kind, sections[j].name@);
        taken_is_an_id(f, s, n, id);
        let i = choose|i: int| 0 <= i < n + 2 && #[trigger] step_id(f, s, i) == id;
        assert(step_id(f, s, i) == id);
    }
}

/// Whether some variant runs program `i`.
pub open spec fn is_run(vs: Seq<Variant>, i: int) -> bool {
    exists|k: int| 0 <= k < vs.len() && (#[trigger] vs[k]).program_index == i
}

/// Whether some variant names object `i`.
pub open spec fn is_named(vs: Seq<Variant>, i: int) -> bool {
    exists|k: int, j: int|
        0 <= k < vs.len() && 0 <= j < vs[k].object_indices@.len()
            && #[trigger] vs[k].object_indices@[j] == i
}

/// Whether a step can be added: its programs are of the format's version and for this machine, and
/// there are some, as there are variants; its objects and variants are sound; none of its sections is
/// there already, in the step or in the packet; and every program runs in a variant, and every object
/// is named by one.
pub open spec fn can_be_added(
    f: Format,
    n_cu: u32,
    sections: Seq<SectionData>,
    s: Spec,
    c: Encoded,
) -> bool {
    let vs = s.variants@;
    &&& s.programs.version == f.programs_version && s.programs.n_cu == n_cu
    &&& s.programs.programs > 0 && vs.len() > 0
    &&& forall|i: int| 0 <= i < s.objects@.len() ==> is_sound(f, n_cu, #[trigger] s.objects@[i])
    &&& objects_are_apart(f, s)
    &&& packet_is_apart(f, s, sections)
    &&& forall|i: int|
        0 <= i < vs.len() ==> is_sound_variant(#[trigger] vs[i], c.rows@, s.objects@.len())
    &&& forall|i: int| 0 <= i < c.rows@.len() ==> #[trigger] is_run(vs, i)
    &&& forall|i: int| 0 <= i < s.objects@.len() ==> #[trigger] is_named(vs, i)
}

proof fn bound_is_bound(vs: Seq<Variant>, programs: nat, objects: nat)
    ensures
        all_bound(vs, programs, objects) <==> {
            &&& forall|i: int| 0 <= i < programs ==> #[trigger] is_run(vs, i)
            &&& forall|i: int| 0 <= i < objects ==> #[trigger] is_named(vs, i)
        },
{
    assert forall|i: int| #[trigger] is_run(vs, i) <==> runs(vs, i) by {}
    assert forall|i: int| #[trigger] is_named(vs, i) <==> binds(vs, i) by {
        if binds(vs, i) {
            let k = choose|k: int| 0 <= k < vs.len() && names(#[trigger] vs[k], i);
            let j = choose|j: int|
                0 <= j < vs[k].object_indices@.len() && #[trigger] vs[k].object_indices@[j] == i;
            assert(vs[k].object_indices@[j] == i);
        }
        if is_named(vs, i) {
            let (k, j) = choose|k: int, j: int|
                0 <= k < vs.len() && 0 <= j < vs[k].object_indices@.len()
                    && #[trigger] vs[k].object_indices@[j] == i;
            assert(names(vs[k], i));
        }
    }
    if all_bound(vs, programs, objects) {
        assert forall|i: int| 0 <= i < programs implies #[trigger] is_run(vs, i) by {
            assert(runs(vs, i));
        }
        assert forall|i: int| 0 <= i < objects implies #[trigger] is_named(vs, i) by {
            assert(binds(vs, i));
        }
    } else {
        if (forall|i: int| 0 <= i < programs ==> #[trigger] is_run(vs, i)) && (forall|i: int|
            0 <= i < objects ==> #[trigger] is_named(vs, i)) {
            assert forall|i: int| 0 <= i < programs implies #[trigger] runs(vs, i) by {
                assert(is_run(vs, i));
            }
            assert forall|i: int| 0 <= i < objects implies #[trigger] binds(vs, i) by {
                assert(is_named(vs, i));
            }
        }
    }
}

/// A step whose programs were written is refused exactly where it cannot be added; one whose programs
/// were not is refused for that, unless its descriptor is refused first.
pub proof fn steps_are_refused_exactly_where_they_cannot_be_added(
    f: Format,
    n_cu: u32,
    sections: Seq<SectionData>,
    s: Spec,
    c: Encoded,
    e: String,
)
    ensures
        fault(f, n_cu, sections, s, Ok(c)) is None <==> can_be_added(f, n_cu, sections, s, c),
        fault(f, n_cu, sections, s, Ok(c)) == Some(MixedError::BadDescriptor) <==> {
            ||| s.programs.version != f.programs_version
            ||| s.programs.n_cu != n_cu
            ||| s.programs.programs == 0
            ||| s.variants@.len() == 0
        },
        fault(f, n_cu, sections, s, Err(e)) == Some(MixedError::BadDescriptor) || fault(
            f,
            n_cu,
            sections,
            s,
            Err(e),
        ) == Some(MixedError::Encoding(e)),
{
    objects_are_sound(f, n_cu, s.objects@, 0);
    apart_is_not_duplicated(f, s);
    apart_is_not_present(f, s, sections);
    variants_are_sound(s.variants@, c.rows@, s.objects@.len(), 0);
    bound_is_bound(s.variants@, c.rows@.len(), s.objects@.len());
    no_descriptor_fault(f, n_cu, s.objects@, 0);
    no_descriptor_in_variants(s.variants@, c.rows@, s.objects@.len(), 0);
}

proof fn no_descriptor_fault(f: Format, n_cu: u32, os: Seq<ObjectSection>, k: int)
    requires
        0 <= k <= os.len(),
    ensures
        objects_fault(f, n_cu, os, k) != Some(MixedError::BadDescriptor),
    decreases os.len() - k,
{
    if k < os.len() {
        no_descriptor_fault(f, n_cu, os, k + 1);
    }
}

proof fn no_descriptor_in_indices(v: Seq<usize>, n: nat, k: int)
    requires
        0 <= k <= v.len(),
    ensures
        indices_fault(v, n, k) != Some(MixedError::BadDescriptor),
    decreases v.len() - k,
{
    if k < v.len() {
        no_descriptor_in_indices(v, n, k + 1);
    }
}

proof fn no_descriptor_in_variants(vs: Seq<Variant>, rows: Seq<u32>, n: nat, k: int)
    requires
        0 <= k <= vs.len(),
    ensures
        variants_fault(vs, rows, n, k) != Some(MixedError::BadDescriptor),
    decreases vs.len() - k,
{
    if k < vs.len() {
        no_descriptor_in_variants(vs, rows, n, k + 1);
        no_descriptor_in_indices(vs[k].object_indices@, n, 0);
    }
}

/// A step's sections are its programs, its metadata, and each object behind them: each under its own
/// kind and name, with its own bytes.
pub proof fn sections_hold_what_they_are_named_for(
    f: Format,
    s: Spec,
    c: Encoded,
    metadata: Seq<u8>,
    i: int,
)
    requires
        0 <= i < s.objects@.len() + 2,
    ensures
        ({
            let v = step_sections(f, s, c, metadata);
            &&& v.len() == s.objects@.len() + 2
            &&& (v[i].kind, v[i].name) == step_id(f, s, i)
            &&& i == 0 ==> v[i].data == c.bytes@
            &&& i == 1 ==> v[i].data == metadata
            &&& i >= 2 ==> v[i].data == s.objects@[i - 2].bytes@
        }),
{
}

/// A step's manifest is for this machine and of the format's version, takes the step's limits, and
/// binds to each variant the step's programs under their digest and, in the variant's order, the
/// objects that it names, each under its own section, digest, version and capability.
pub proof fn a_manifest_binds_what_its_variants_name(
    m: StepManifest,
    f: Format,
    n_cu: u32,
    s: Spec,
    c: Encoded,
    i: int,
    j: int,
)
    requires
        describes(m, f, n_cu, s, c),
        0 <= i < s.variants@.len(),
        0 <= j < s.variants@[i].object_indices@.len(),
    ensures
        m.version == f.version && m.n_cu == n_cu,
        m.max_active_requests == s.max_active_requests,
        m.physical_slot_capacity == s.physical_slot_capacity,
        m.variants@.len() == s.variants@.len(),
        ({
            let v = m.variants@[i]@;
            let w = s.variants@[i];
            let o = s.objects@[w.object_indices@[j] as int];
            let b = v.objects[j];
            &&& v.rows == w.rows && v.decode_rows == w.decode_rows && v.program_index
                == w.program_index
            &&& v.program.section == s.programs.section@ && v.program.kind == PayloadKind::Programs
            &&& v.program.version == s.programs.version && v.program.sha256 == c.sha256@
            &&& v.program.capability == f.programs_capability@ && v.program.capability_version
                == f.programs_version
            &&& v.objects.len() == w.object_indices@.len()
            &&& b.section == o.section@ && b.kind == o.kind && b.version == o.version && b.sha256
                == o.sha256@ && b.capability == o.capability@ && b.capability_version
                == o.capability_version
        }),
{
    assert(views(m.variants@).len() == m.variants@.len());
    assert(views(m.variants@)[i] == bound_variant(f, s, c, s.variants@[i]));
    assert(views(m.variants@)[i] == m.variants@[i]@);
}

/// Every refusal says its own: those with a reason of their own pass it on.
pub proof fn refusals_pass_their_reasons_on(s: String)
    ensures
        message_text(MixedError::Encoding(s)) == s@,
        message_text(MixedError::Refused(s)) == s@,
        message_text(MixedError::BadDescriptor)
            == "mixed step emitter: invalid program descriptor"@,
        message_text(MixedError::BadObject)
            == "mixed step emitter: invalid object descriptor or capability"@,
        message_text(MixedError::BadCubin) == "mixed step emitter: invalid CUBIN"@,
        message_text(MixedError::DuplicateSection)
            == "mixed step emitter: duplicate section identity"@,
        message_text(MixedError::SectionExists)
            == "mixed step emitter: section identity already exists"@,
        message_text(MixedError::ProgramMismatch)
            == "mixed step emitter: variant program or row mismatch"@,
        message_text(MixedError::DuplicateObject)
            == "mixed step emitter: duplicate variant object"@,
        message_text(MixedError::ObjectOutOfBounds)
            == "mixed step emitter: object index out of bounds"@,
        message_text(MixedError::Unbound) == "mixed step emitter: unbound payload section"@,
{
}

} // verus!

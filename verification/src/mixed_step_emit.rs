//! Adding a mixed step to a packet: a section of programs, one of metadata, and the objects that
//! run them.
use vstd::prelude::*;

use crate::order::views;
use crate::text::text;

verus! {

/// The most bytes that an object may have.
pub const MAX_OBJECT_BYTES: usize = 67_108_864;

/// The machine numbers that objects of the two kinds carry.
pub const EM_CUDA: u16 = 190;

pub const EM_AMDGPU: u16 = 224;

/// What a payload is.
#[derive(Clone, Copy, PartialEq, Eq, Debug, Structural)]
pub enum PayloadKind {
    Programs,
    Cubin,
    Hsaco,
}

/// The packet format's constants.
pub struct Format {
    /// The versions of mixed steps and of program sections.
    pub version: u32,
    pub programs_version: u32,
    /// What an object and a program section must be able to do.
    pub object_capability: String,
    pub programs_capability: String,
    /// The name of the metadata section.
    pub metadata_section: String,
    /// Numbers of the kinds of sections.
    pub sect_programs: u32,
    pub sect_metadata: u32,
    pub sect_cubin: u32,
    pub sect_hsaco: u32,
}

/// The programs of a mixed step.
pub struct ProgramSection {
    pub section: String,
    pub version: u32,
    pub n_cu: u32,
    /// How many programs there are.
    pub programs: usize,
}

/// An object of a mixed step, with what reading its bytes showed: the machine, the value of its
/// capability's symbol, whether it is a sound cubin, and its digest.
pub struct ObjectSection {
    pub section: String,
    pub kind: PayloadKind,
    pub version: u32,
    pub n_cu: u32,
    pub capability: String,
    pub capability_version: u32,
    pub bytes: Vec<u8>,
    pub machine: Option<u16>,
    pub symbol: Option<u32>,
    pub sound_cubin: bool,
    pub sha256: String,
}

/// A shape of a mixed step: its rows, those of them that decode, its program and its objects.
pub struct Variant {
    pub rows: u32,
    pub decode_rows: u32,
    pub program_index: u32,
    pub object_indices: Vec<usize>,
}

/// What to add.
pub struct Spec {
    pub max_active_requests: u32,
    pub physical_slot_capacity: u32,
    pub programs: ProgramSection,
    pub objects: Vec<ObjectSection>,
    pub variants: Vec<Variant>,
}

/// A section of a packet.
pub struct SectionData {
    pub kind: u32,
    pub name: String,
    pub data: Vec<u8>,
}

pub struct SectionView {
    pub kind: u32,
    pub name: Seq<char>,
    pub data: Seq<u8>,
}

impl View for SectionData {
    type V = SectionView;

    open spec fn view(&self) -> SectionView {
        SectionView { kind: self.kind, name: self.name@, data: self.data@ }
    }
}

/// The programs as they are written, their digest, and the rows of each.
pub struct Encoded {
    pub bytes: Vec<u8>,
    pub sha256: String,
    pub rows: Vec<u32>,
}

/// Why a mixed step is refused.
pub enum MixedError {
    BadDescriptor,
    /// The programs could not be written, with the reason.
    Encoding(String),
    BadObject,
    BadCubin,
    DuplicateSection,
    SectionExists,
    ProgramMismatch,
    DuplicateObject,
    ObjectOutOfBounds,
    Unbound,
    /// The finished manifest was refused, with the reason.
    Refused(String),
}

/// What a refusal says.
pub open spec fn message_text(e: MixedError) -> Seq<char> {
    match e {
        MixedError::BadDescriptor => "mixed step emitter: invalid program descriptor"@,
        MixedError::Encoding(s) => s@,
        MixedError::BadObject => "mixed step emitter: invalid object descriptor or capability"@,
        MixedError::BadCubin => "mixed step emitter: invalid CUBIN"@,
        MixedError::DuplicateSection => "mixed step emitter: duplicate section identity"@,
        MixedError::SectionExists => "mixed step emitter: section identity already exists"@,
        MixedError::ProgramMismatch => "mixed step emitter: variant program or row mismatch"@,
        MixedError::DuplicateObject => "mixed step emitter: duplicate variant object"@,
        MixedError::ObjectOutOfBounds => "mixed step emitter: object index out of bounds"@,
        MixedError::Unbound => "mixed step emitter: unbound payload section"@,
        MixedError::Refused(s) => s@,
    }
}

impl MixedError {
    /// What the refusal says.
    pub fn message(&self) -> (r: String)
        ensures
            r@ == message_text(*self),
    {
        match self {
            MixedError::BadDescriptor => text("mixed step emitter: invalid program descriptor"),
            MixedError::Encoding(s) => s.clone(),
            MixedError::BadObject => text(
                "mixed step emitter: invalid object descriptor or capability",
            ),
            MixedError::BadCubin => text("mixed step emitter: invalid CUBIN"),
            MixedError::DuplicateSection => text("mixed step emitter: duplicate section identity"),
            MixedError::SectionExists => text(
                "mixed step emitter: section identity already exists",
            ),
            MixedError::ProgramMismatch => text(
                "mixed step emitter: variant program or row mismatch",
            ),
            MixedError::DuplicateObject => text("mixed step emitter: duplicate variant object"),
            MixedError::ObjectOutOfBounds => text("mixed step emitter: object index out of bounds"),
            MixedError::Unbound => text("mixed step emitter: unbound payload section"),
            MixedError::Refused(s) => s.clone(),
        }
    }
}

/// The number of a payload's section kind.
pub open spec fn section_kind(f: Format, k: PayloadKind) -> u32 {
    match k {
        PayloadKind::Programs => f.sect_programs,
        PayloadKind::Cubin => f.sect_cubin,
        PayloadKind::Hsaco => f.sect_hsaco,
    }
}

fn kind_number(f: &Format, k: PayloadKind) -> (r: u32)
    ensures
        r == section_kind(*f, k),
{
    match k {
        PayloadKind::Programs => f.sect_programs,
        PayloadKind::Cubin => f.sect_cubin,
        PayloadKind::Hsaco => f.sect_hsaco,
    }
}

/// Whether an object is what it says: an object of this format for this machine, that carries its
/// capability's symbol with its version.
pub open spec fn object_sound(f: Format, n_cu: u32, o: ObjectSection) -> bool {
    &&& o.kind != PayloadKind::Programs
    &&& o.version == f.version
    &&& o.n_cu == n_cu
    &&& o.capability@ == f.object_capability@
    &&& o.capability_version == f.version
    &&& 0 < o.bytes@.len() <= MAX_OBJECT_BYTES
    &&& o.machine == Some(if o.kind == PayloadKind::Cubin { EM_CUDA } else { EM_AMDGPU })
    &&& o.symbol == Some(o.capability_version)
}

/// Why an object is refused, if it is.
pub open spec fn object_fault(f: Format, n_cu: u32, o: ObjectSection) -> Option<MixedError> {
    if !object_sound(f, n_cu, o) {
        Some(MixedError::BadObject)
    } else if o.kind == PayloadKind::Cubin && !o.sound_cubin {
        Some(MixedError::BadCubin)
    } else {
        None
    }
}

fn check_object(f: &Format, n_cu: u32, o: &ObjectSection) -> (r: Option<MixedError>)
    ensures
        r == object_fault(*f, n_cu, *o),
{
    let machine: u16 = if o.kind == PayloadKind::Cubin { EM_CUDA } else { EM_AMDGPU };
    if o.kind == PayloadKind::Programs || o.version != f.version || o.n_cu != n_cu || o.capability
        != f.object_capability || o.capability_version != f.version || o.bytes.len() == 0
        || o.bytes.len() > MAX_OBJECT_BYTES || o.machine != Some(machine) || o.symbol != Some(
        o.capability_version,
    ) {
        return Some(MixedError::BadObject);
    }
    if o.kind == PayloadKind::Cubin && !o.sound_cubin {
        return Some(MixedError::BadCubin);
    }
    None
}

/// Why the first refused object at or after `k` is refused, if one is.
pub open spec fn objects_fault(
    f: Format,
    n_cu: u32,
    os: Seq<ObjectSection>,
    k: int,
) -> Option<MixedError>
    decreases os.len() - k,
{
    if k >= os.len() {
        None
    } else {
        match object_fault(f, n_cu, os[k]) {
            Some(e) => Some(e),
            None => objects_fault(f, n_cu, os, k + 1),
        }
    }
}

fn check_objects(f: &Format, n_cu: u32, os: &Vec<ObjectSection>) -> (r: Option<MixedError>)
    ensures
        r == objects_fault(*f, n_cu, os@, 0),
{
    let mut k: usize = 0;
    while k < os.len()
        invariant
            k <= os@.len(),
            objects_fault(*f, n_cu, os@, 0) == objects_fault(*f, n_cu, os@, k as int),
        decreases os@.len() - k,
    {
        let e: Option<MixedError> = check_object(f, n_cu, &os[k]);
        if e.is_some() {
            return e;
        }
        k = k + 1;
    }
    None
}

/// The section of object `i`: its kind and its name.
pub open spec fn object_id(f: Format, os: Seq<ObjectSection>, i: int) -> (u32, Seq<char>) {
    (section_kind(f, os[i].kind), os[i].section@)
}

/// Whether a section is the programs', the metadata's, or one of the first `n` objects'.
pub open spec fn taken(f: Format, s: Spec, n: int, id: (u32, Seq<char>)) -> bool {
    ||| id == (f.sect_programs, s.programs.section@)
    ||| id == (f.sect_metadata, f.metadata_section@)
    ||| exists|i: int| 0 <= i < n && #[trigger] object_id(f, s.objects@, i) == id
}

fn is_taken(f: &Format, s: &Spec, n: usize, kind: u32, name: &String) -> (r: bool)
    requires
        n <= s.objects@.len(),
    ensures
        r == taken(*f, *s, n as int, (kind, name@)),
{
    if kind == f.sect_programs && *name == s.programs.section || kind == f.sect_metadata && *name
        == f.metadata_section {
        return true;
    }
    let mut i: usize = 0;
    while i < n
        invariant
            i <= n <= s.objects@.len(),
            forall|j: int|
                0 <= j < i ==> #[trigger] object_id(*f, s.objects@, j) != (kind, name@),
        decreases n - i,
    {
        let o: &ObjectSection = &s.objects[i];
        if kind_number(f, o.kind) == kind && o.section == *name {
            proof {
                assert(object_id(*f, s.objects@, i as int) == (kind, name@));
            }
            return true;
        }
        proof {
            assert(object_id(*f, s.objects@, i as int) != (kind, name@));
        }
        i = i + 1;
    }
    false
}

/// Whether an object's section is one that stands before it in the same step.
pub open spec fn duplicated(f: Format, s: Spec) -> bool {
    exists|i: int|
        0 <= i < s.objects@.len() && taken(f, s, i, #[trigger] object_id(f, s.objects@, i))
}

fn is_duplicated(f: &Format, s: &Spec) -> (r: bool)
    ensures
        r == duplicated(*f, *s),
{
    let mut i: usize = 0;
    while i < s.objects.len()
        invariant
            i <= s.objects@.len(),
            forall|j: int|
                0 <= j < i ==> !taken(*f, *s, j, #[trigger] object_id(*f, s.objects@, j)),
        decreases s.objects@.len() - i,
    {
        let o: &ObjectSection = &s.objects[i];
        if is_taken(f, s, i, kind_number(f, o.kind), &o.section) {
            proof {
                assert(taken(*f, *s, i as int, object_id(*f, s.objects@, i as int)));
            }
            return true;
        }
        i = i + 1;
    }
    false
}

/// Whether the packet has one of the step's sections already.
pub open spec fn present(f: Format, s: Spec, sections: Seq<SectionData>) -> bool {
    exists|i: int|
        0 <= i < sections.len() && taken(
            f,
            s,
            s.objects@.len() as int,
            ((#[trigger] sections[i]).kind, sections[i].name@),
        )
}

fn is_present(f: &Format, s: &Spec, sections: &Vec<SectionData>) -> (r: bool)
    ensures
        r == present(*f, *s, sections@),
{
    let n: usize = s.objects.len();
    let mut i: usize = 0;
    while i < sections.len()
        invariant
            i <= sections@.len(),
            n == s.objects@.len(),
            forall|j: int|
                0 <= j < i ==> !taken(
                    *f,
                    *s,
                    n as int,
                    ((#[trigger] sections@[j]).kind, sections@[j].name@),
                ),
        decreases sections@.len() - i,
    {
        if is_taken(f, s, n, sections[i].kind, &sections[i].name) {
            proof {
                assert(taken(
                    *f,
                    *s,
                    n as int,
                    (sections@[i as int].kind, sections@[i as int].name@),
                ));
            }
            return true;
        }
        i = i + 1;
    }
    false
}

/// Whether position `k` of a list says what one before it says.
pub open spec fn repeats(v: Seq<usize>, k: int) -> bool {
    exists|j: int| 0 <= j < k && #[trigger] v[j] == v[k]
}

fn is_repeat(v: &Vec<usize>, k: usize) -> (r: bool)
    requires
        k < v@.len(),
    ensures
        r == repeats(v@, k as int),
{
    let mut j: usize = 0;
    while j < k
        invariant
            j <= k < v@.len(),
            forall|i: int| 0 <= i < j ==> #[trigger] v@[i] != v@[k as int],
        decreases k - j,
    {
        if v[j] == v[k] {
            return true;
        }
        j = j + 1;
    }
    false
}

/// Why a variant's objects are refused from position `k` on, if they are: the first that is named
/// twice, or that is not there.
pub open spec fn indices_fault(v: Seq<usize>, n: nat, k: int) -> Option<MixedError>
    decreases v.len() - k,
{
    if k >= v.len() {
        None
    } else if repeats(v, k) {
        Some(MixedError::DuplicateObject)
    } else if v[k] >= n {
        Some(MixedError::ObjectOutOfBounds)
    } else {
        indices_fault(v, n, k + 1)
    }
}

fn check_indices(v: &Vec<usize>, n: usize) -> (r: Option<MixedError>)
    ensures
        r == indices_fault(v@, n as nat, 0),
        r is None ==> forall|i: int| 0 <= i < v@.len() ==> #[trigger] v@[i] < n,
{
    let mut k: usize = 0;
    while k < v.len()
        invariant
            k <= v@.len(),
            indices_fault(v@, n as nat, 0) == indices_fault(v@, n as nat, k as int),
            forall|i: int| 0 <= i < k ==> #[trigger] v@[i] < n,
        decreases v@.len() - k,
    {
        if is_repeat(v, k) {
            return Some(MixedError::DuplicateObject);
        }
        if v[k] >= n {
            return Some(MixedError::ObjectOutOfBounds);
        }
        k = k + 1;
    }
    None
}

/// Why a variant is refused, if it is.
pub open spec fn variant_fault(v: Variant, rows: Seq<u32>, n: nat) -> Option<MixedError> {
    if v.program_index >= rows.len() || rows[v.program_index as int] != v.rows {
        Some(MixedError::ProgramMismatch)
    } else {
        indices_fault(v.object_indices@, n, 0)
    }
}

/// Why the first refused variant at or after `k` is refused, if one is.
pub open spec fn variants_fault(
    vs: Seq<Variant>,
    rows: Seq<u32>,
    n: nat,
    k: int,
) -> Option<MixedError>
    decreases vs.len() - k,
{
    if k >= vs.len() {
        None
    } else {
        match variant_fault(vs[k], rows, n) {
            Some(e) => Some(e),
            None => variants_fault(vs, rows, n, k + 1),
        }
    }
}

fn check_variants(vs: &Vec<Variant>, rows: &Vec<u32>, n: usize) -> (r: Option<MixedError>)
    ensures
        r == variants_fault(vs@, rows@, n as nat, 0),
        r is None ==> forall|i: int|
            0 <= i < vs@.len() ==> variant_fault(#[trigger] vs@[i], rows@, n as nat) is None,
{
    let mut k: usize = 0;
    while k < vs.len()
        invariant
            k <= vs@.len(),
            variants_fault(vs@, rows@, n as nat, 0) == variants_fault(
                vs@,
                rows@,
                n as nat,
                k as int,
            ),
            forall|i: int|
                0 <= i < k ==> variant_fault(#[trigger] vs@[i], rows@, n as nat) is None,
        decreases vs@.len() - k,
    {
        let v: &Variant = &vs[k];
        if v.program_index as u64 >= rows.len() as u64 || rows[v.program_index as usize]
            != v.rows {
            return Some(MixedError::ProgramMismatch);
        }
        let e: Option<MixedError> = check_indices(&v.object_indices, n);
        if e.is_some() {
            return e;
        }
        k = k + 1;
    }
    None
}

/// Whether some variant runs program `i`.
pub open spec fn runs(vs: Seq<Variant>, i: int) -> bool {
    exists|k: int| 0 <= k < vs.len() && (#[trigger] vs[k]).program_index == i
}

/// Whether a variant names object `i`.
pub open spec fn names(v: Variant, i: int) -> bool {
    exists|j: int| 0 <= j < v.object_indices@.len() && #[trigger] v.object_indices@[j] == i
}

/// Whether some variant names object `i`.
pub open spec fn binds(vs: Seq<Variant>, i: int) -> bool {
    exists|k: int| 0 <= k < vs.len() && names(#[trigger] vs[k], i)
}

/// Whether every program and every object belongs to a variant.
pub open spec fn all_bound(vs: Seq<Variant>, programs: nat, objects: nat) -> bool {
    &&& forall|i: int| 0 <= i < programs ==> #[trigger] runs(vs, i)
    &&& forall|i: int| 0 <= i < objects ==> #[trigger] binds(vs, i)
}

fn is_run(vs: &Vec<Variant>, i: usize) -> (r: bool)
    ensures
        r == runs(vs@, i as int),
{
    let mut k: usize = 0;
    while k < vs.len()
        invariant
            k <= vs@.len(),
            forall|j: int| 0 <= j < k ==> (#[trigger] vs@[j]).program_index != i,
        decreases vs@.len() - k,
    {
        if vs[k].program_index as u64 == i as u64 {
            return true;
        }
        k = k + 1;
    }
    false
}

fn is_named(v: &Variant, i: usize) -> (r: bool)
    ensures
        r == names(*v, i as int),
{
    let mut j: usize = 0;
    while j < v.object_indices.len()
        invariant
            j <= v.object_indices@.len(),
            forall|k: int| 0 <= k < j ==> #[trigger] v.object_indices@[k] != i,
        decreases v.object_indices@.len() - j,
    {
        if v.object_indices[j] == i {
            return true;
        }
        j = j + 1;
    }
    false
}

fn is_bound(vs: &Vec<Variant>, i: usize) -> (r: bool)
    ensures
        r == binds(vs@, i as int),
{
    let mut k: usize = 0;
    while k < vs.len()
        invariant
            k <= vs@.len(),
            forall|j: int| 0 <= j < k ==> !names(#[trigger] vs@[j], i as int),
        decreases vs@.len() - k,
    {
        if is_named(&vs[k], i) {
            return true;
        }
        k = k + 1;
    }
    false
}

fn are_bound(vs: &Vec<Variant>, programs: usize, objects: usize) -> (r: bool)
    ensures
        r == all_bound(vs@, programs as nat, objects as nat),
{
    let mut i: usize = 0;
    while i < programs
        invariant
            i <= programs,
            forall|j: int| 0 <= j < i ==> #[trigger] runs(vs@, j),
        decreases programs - i,
    {
        if !is_run(vs, i) {
            return false;
        }
        i = i + 1;
    }
    let mut i: usize = 0;
    while i < objects
        invariant
            i <= objects,
            forall|j: int| 0 <= j < i ==> #[trigger] binds(vs@, j),
        decreases objects - i,
    {
        if !is_bound(vs, i) {
            return false;
        }
        i = i + 1;
    }
    true
}

/// Why a mixed step is refused, if it is, before its manifest is looked at.
pub open spec fn fault(
    f: Format,
    n_cu: u32,
    sections: Seq<SectionData>,
    s: Spec,
    enc: Result<Encoded, String>,
) -> Option<MixedError> {
    if s.programs.version != f.programs_version || s.programs.n_cu != n_cu || s.programs.programs
        == 0 || s.variants@.len() == 0 {
        Some(MixedError::BadDescriptor)
    } else {
        match enc {
            Err(e) => Some(MixedError::Encoding(e)),
            Ok(c) => match objects_fault(f, n_cu, s.objects@, 0) {
                Some(e) => Some(e),
                None => if duplicated(f, s) {
                    Some(MixedError::DuplicateSection)
                } else if present(f, s, sections) {
                    Some(MixedError::SectionExists)
                } else {
                    match variants_fault(s.variants@, c.rows@, s.objects@.len(), 0) {
                        Some(e) => Some(e),
                        None => if all_bound(s.variants@, c.rows@.len(), s.objects@.len()) {
                            None
                        } else {
                            Some(MixedError::Unbound)
                        },
                    }
                },
            },
        }
    }
}

/// A payload that a manifest binds.
pub struct PayloadBinding {
    pub section: String,
    pub kind: PayloadKind,
    pub version: u32,
    pub sha256: String,
    pub capability: String,
    pub capability_version: u32,
}

pub struct BindingView {
    pub section: Seq<char>,
    pub kind: PayloadKind,
    pub version: u32,
    pub sha256: Seq<char>,
    pub capability: Seq<char>,
    pub capability_version: u32,
}

impl View for PayloadBinding {
    type V = BindingView;

    open spec fn view(&self) -> BindingView {
        BindingView {
            section: self.section@,
            kind: self.kind,
            version: self.version,
            sha256: self.sha256@,
            capability: self.capability@,
            capability_version: self.capability_version,
        }
    }
}

/// The binding of a step's programs.
pub open spec fn program_binding(f: Format, p: ProgramSection, c: Encoded) -> BindingView {
    BindingView {
        section: p.section@,
        kind: PayloadKind::Programs,
        version: p.version,
        sha256: c.sha256@,
        capability: f.programs_capability@,
        capability_version: f.programs_version,
    }
}

/// The binding of an object.
pub open spec fn object_binding_of(o: ObjectSection) -> BindingView {
    BindingView {
        section: o.section@,
        kind: o.kind,
        version: o.version,
        sha256: o.sha256@,
        capability: o.capability@,
        capability_version: o.capability_version,
    }
}

/// The binding of an object, or why it is refused.
pub fn object_binding(f: &Format, n_cu: u32, o: &ObjectSection) -> (r: Result<
    PayloadBinding,
    MixedError,
>)
    ensures
        match (r, object_fault(*f, n_cu, *o)) {
            (Err(e), Some(x)) => e == x,
            (Ok(b), None) => b@ == object_binding_of(*o),
            _ => false,
        },
{
    match check_object(f, n_cu, o) {
        Some(e) => Err(e),
        None => Ok(bind(o)),
    }
}

fn bind(o: &ObjectSection) -> (r: PayloadBinding)
    ensures
        r@ == object_binding_of(*o),
{
    PayloadBinding {
        section: o.section.clone(),
        kind: o.kind,
        version: o.version,
        sha256: o.sha256.clone(),
        capability: o.capability.clone(),
        capability_version: o.capability_version,
    }
}

/// A variant of a manifest: its program and its objects.
pub struct BoundVariant {
    pub rows: u32,
    pub decode_rows: u32,
    pub program_index: u32,
    pub program: PayloadBinding,
    pub objects: Vec<PayloadBinding>,
}

pub struct BoundView {
    pub rows: u32,
    pub decode_rows: u32,
    pub program_index: u32,
    pub program: BindingView,
    pub objects: Seq<BindingView>,
}

impl View for BoundVariant {
    type V = BoundView;

    open spec fn view(&self) -> BoundView {
        BoundView {
            rows: self.rows,
            decode_rows: self.decode_rows,
            program_index: self.program_index,
            program: self.program@,
            objects: views(self.objects@),
        }
    }
}

/// A variant with its payloads.
pub open spec fn bound_variant(f: Format, s: Spec, c: Encoded, v: Variant) -> BoundView {
    BoundView {
        rows: v.rows,
        decode_rows: v.decode_rows,
        program_index: v.program_index,
        program: program_binding(f, s.programs, c),
        objects: Seq::new(
            v.object_indices@.len(),
            |i: int| object_binding_of(s.objects@[v.object_indices@[i] as int]),
        ),
    }
}

/// The manifest of a mixed step.
pub struct StepManifest {
    pub version: u32,
    pub n_cu: u32,
    pub max_active_requests: u32,
    pub physical_slot_capacity: u32,
    pub variants: Vec<BoundVariant>,
}

/// Whether a manifest is that of a step.
pub open spec fn describes(m: StepManifest, f: Format, n_cu: u32, s: Spec, c: Encoded) -> bool {
    &&& m.version == f.version
    &&& m.n_cu == n_cu
    &&& m.max_active_requests == s.max_active_requests
    &&& m.physical_slot_capacity == s.physical_slot_capacity
    &&& views(m.variants@) == Seq::new(
        s.variants@.len(),
        |i: int| bound_variant(f, s, c, s.variants@[i]),
    )
}

/// Whether two refusals are the same.
pub open spec fn same_fault(a: Option<MixedError>, b: Option<MixedError>) -> bool {
    match (a, b) {
        (Some(x), Some(y)) => match (x, y) {
            (MixedError::Encoding(p), MixedError::Encoding(q)) => p@ == q@,
            _ => x == y,
        },
        (None, None) => true,
        _ => false,
    }
}

fn find_fault(
    f: &Format,
    n_cu: u32,
    sections: &Vec<SectionData>,
    s: &Spec,
    enc: &Result<Encoded, String>,
) -> (r: Option<MixedError>)
    ensures
        same_fault(r, fault(*f, n_cu, sections@, *s, *enc)),
        r is None ==> (*enc matches Ok(c) && forall|i: int|
            0 <= i < s.variants@.len() ==> variant_fault(
                #[trigger] s.variants@[i],
                c.rows@,
                s.objects@.len(),
            ) is None),
{
    if s.programs.version != f.programs_version || s.programs.n_cu != n_cu || s.programs.programs
        == 0 || s.variants.len() == 0 {
        return Some(MixedError::BadDescriptor);
    }
    match enc {
        Err(e) => Some(MixedError::Encoding(e.clone())),
        Ok(c) => {
            let e: Option<MixedError> = check_objects(f, n_cu, &s.objects);
            if e.is_some() {
                return e;
            }
            if is_duplicated(f, s) {
                return Some(MixedError::DuplicateSection);
            }
            if is_present(f, s, sections) {
                return Some(MixedError::SectionExists);
            }
            let e: Option<MixedError> = check_variants(&s.variants, &c.rows, s.objects.len());
            if e.is_some() {
                return e;
            }
            if are_bound(&s.variants, c.rows.len(), s.objects.len()) {
                None
            } else {
                Some(MixedError::Unbound)
            }
        },
    }
}


fn bind_all(s: &Spec, v: &Variant) -> (r: Vec<PayloadBinding>)
    requires
        forall|i: int|
            0 <= i < v.object_indices@.len() ==> #[trigger] v.object_indices@[i]
                < s.objects@.len(),
    ensures
        views(r@) == Seq::new(
            v.object_indices@.len(),
            |i: int| object_binding_of(s.objects@[v.object_indices@[i] as int]),
        ),
{
    let mut r: Vec<PayloadBinding> = Vec::new();
    let mut j: usize = 0;
    while j < v.object_indices.len()
        invariant
            j <= v.object_indices@.len(),
            r@.len() == j,
            forall|i: int|
                0 <= i < v.object_indices@.len() ==> #[trigger] v.object_indices@[i]
                    < s.objects@.len(),
            forall|i: int|
                0 <= i < j ==> (#[trigger] r@[i])@ == object_binding_of(
                    s.objects@[v.object_indices@[i] as int],
                ),
        decreases v.object_indices@.len() - j,
    {
        r.push(bind(&s.objects[v.object_indices[j]]));
        j = j + 1;
    }
    proof {
        assert(views(r@) =~= Seq::new(
            v.object_indices@.len(),
            |i: int| object_binding_of(s.objects@[v.object_indices@[i] as int]),
        ));
    }
    r
}

proof fn sound_indices(v: Seq<usize>, n: nat, k: int, i: int)
    requires
        indices_fault(v, n, k) is None,
        k <= i < v.len(),
    ensures
        v[i] < n,
    decreases v.len() - k,
{
    if k < i {
        sound_indices(v, n, k + 1, i);
    }
}

/// The manifest of a mixed step, or why the step is refused.
pub fn plan(
    f: &Format,
    n_cu: u32,
    sections: &Vec<SectionData>,
    s: &Spec,
    enc: &Result<Encoded, String>,
) -> (r: Result<StepManifest, MixedError>)
    ensures
        match r {
            Ok(m) => fault(*f, n_cu, sections@, *s, *enc) is None && (*enc matches Ok(c)
                && describes(m, *f, n_cu, *s, c)),
            Err(e) => same_fault(Some(e), fault(*f, n_cu, sections@, *s, *enc)),
        },
{
    if let Some(e) = find_fault(f, n_cu, sections, s, enc) {
        return Err(e);
    }
    let c: &Encoded = match enc {
        Ok(c) => c,
        Err(_) => {
            return Err(MixedError::BadDescriptor);
        },
    };
    let mut vs: Vec<BoundVariant> = Vec::new();
    let mut k: usize = 0;
    while k < s.variants.len()
        invariant
            k <= s.variants@.len(),
            vs@.len() == k,
            forall|i: int|
                0 <= i < s.variants@.len() ==> variant_fault(
                    #[trigger] s.variants@[i],
                    c.rows@,
                    s.objects@.len(),
                ) is None,
            forall|i: int|
                0 <= i < k ==> (#[trigger] vs@[i])@ == bound_variant(*f, *s, *c, s.variants@[i]),
        decreases s.variants@.len() - k,
    {
        let v: &Variant = &s.variants[k];
        proof {
            assert(variant_fault(s.variants@[k as int], c.rows@, s.objects@.len()) is None);
            assert forall|i: int| 0 <= i < v.object_indices@.len() implies #[trigger]
                v.object_indices@[i] < s.objects@.len() by {
                sound_indices(v.object_indices@, s.objects@.len(), 0, i);
            }
        }
        let program = PayloadBinding {
            section: s.programs.section.clone(),
            kind: PayloadKind::Programs,
            version: s.programs.version,
            sha256: c.sha256.clone(),
            capability: f.programs_capability.clone(),
            capability_version: f.programs_version,
        };
        vs.push(
            BoundVariant {
                rows: v.rows,
                decode_rows: v.decode_rows,
                program_index: v.program_index,
                program,
                objects: bind_all(s, v),
            },
        );
        k = k + 1;
    }
    proof {
        assert(views(vs@) =~= Seq::new(
            s.variants@.len(),
            |i: int| bound_variant(*f, *s, *c, s.variants@[i]),
        ));
    }
    Ok(
        StepManifest {
            version: f.version,
            n_cu,
            max_active_requests: s.max_active_requests,
            physical_slot_capacity: s.physical_slot_capacity,
            variants: vs,
        },
    )
}

/// The section of an object.
pub open spec fn object_section(f: Format, o: ObjectSection) -> SectionView {
    SectionView { kind: section_kind(f, o.kind), name: o.section@, data: o.bytes@ }
}

/// The sections of a step: the programs, the metadata, and the objects in order.
pub open spec fn step_sections(f: Format, s: Spec, c: Encoded, metadata: Seq<u8>) -> Seq<
    SectionView,
> {
    seq![
        SectionView { kind: f.sect_programs, name: s.programs.section@, data: c.bytes@ },
        SectionView { kind: f.sect_metadata, name: f.metadata_section@, data: metadata },
    ] + Seq::new(s.objects@.len(), |i: int| object_section(f, s.objects@[i]))
}

fn copy_bytes(b: &Vec<u8>) -> (r: Vec<u8>)
    ensures
        r@ == b@,
{
    let mut r: Vec<u8> = Vec::new();
    let mut i: usize = 0;
    while i < b.len()
        invariant
            i <= b@.len(),
            r@ == b@.take(i as int),
        decreases b@.len() - i,
    {
        r.push(b[i]);
        proof {
            assert(b@.take(i as int + 1) =~= b@.take(i as int).push(b@[i as int]));
        }
        i = i + 1;
    }
    proof {
        assert(b@.take(i as int) =~= b@);
    }
    r
}

/// Adds a mixed step to a packet's sections, or refuses it and adds nothing.
///
/// `enc` is the step's programs as they are written, or why they cannot be. `checked` is the text
/// of the step's manifest where that was accepted, or why it was not.
pub fn append(
    f: &Format,
    n_cu: u32,
    sections: &mut Vec<SectionData>,
    s: &Spec,
    enc: Result<Encoded, String>,
    checked: Result<Vec<u8>, String>,
) -> (r: Result<(), MixedError>)
    ensures
        match fault(*f, n_cu, old(sections)@, *s, enc) {
            Some(e) => r is Err && same_fault(Some(r->Err_0), Some(e)) && *final(sections) == *old(
                sections,
            ),
            None => match checked {
                Err(e) => r == Err::<(), MixedError>(MixedError::Refused(e)) && *final(sections)
                    == *old(sections),
                Ok(m) => r is Ok && enc is Ok && views(final(sections)@) == views(old(sections)@)
                    + step_sections(*f, *s, enc->Ok_0, m@),
            },
        },
{
    if let Some(e) = find_fault(f, n_cu, sections, s, &enc) {
        return Err(e);
    }
    let metadata: Vec<u8> = match checked {
        Ok(m) => m,
        Err(e) => {
            return Err(MixedError::Refused(e));
        },
    };
    let c: Encoded = match enc {
        Ok(c) => c,
        Err(e) => {
            return Err(MixedError::Encoding(e));
        },
    };
    let ghost before = views(sections@);
    let ghost all = step_sections(*f, *s, c, metadata@);
    sections.push(
        SectionData { kind: f.sect_programs, name: s.programs.section.clone(), data: c.bytes },
    );
    sections.push(
        SectionData { kind: f.sect_metadata, name: f.metadata_section.clone(), data: metadata },
    );
    proof {
        assert(views(sections@) =~= before + all.take(2));
    }
    let mut k: usize = 0;
    while k < s.objects.len()
        invariant
            k <= s.objects@.len(),
            all.len() == s.objects@.len() + 2,
            forall|i: int|
                0 <= i < s.objects@.len() ==> all[i + 2] == object_section(
                    *f,
                    #[trigger] s.objects@[i],
                ),
            views(sections@) == before + all.take(k + 2),
        decreases s.objects@.len() - k,
    {
        let o: &ObjectSection = &s.objects[k];
        let ghost sofar = views(sections@);
        sections.push(
            SectionData {
                kind: kind_number(f, o.kind),
                name: o.section.clone(),
                data: copy_bytes(&o.bytes),
            },
        );
        proof {
            assert(all[k + 2] == object_section(*f, s.objects@[k as int]));
            assert(views(sections@) =~= sofar.push(all[k + 2]));
            assert(all.take(k + 3) =~= all.take(k + 2).push(all[k + 2]));
        }
        k = k + 1;
    }
    proof {
        assert(all.take(k + 2) =~= all);
    }
    Ok(())
}

/// Whether no two sections have the same kind and name.
pub open spec fn distinct(v: Seq<SectionView>) -> bool {
    forall|i: int, j: int|
        0 <= i < j < v.len() ==> section_id(#[trigger] v[i]) != section_id(#[trigger] v[j])
}

/// What a section is found by.
pub open spec fn section_id(v: SectionView) -> (u32, Seq<char>) {
    (v.kind, v.name)
}

/// A step that is not refused keeps sections apart: where no two of a packet's sections shared
/// their kind and name, none do after.
pub proof fn sections_stay_distinct(
    f: Format,
    n_cu: u32,
    sections: Seq<SectionData>,
    s: Spec,
    c: Encoded,
    metadata: Seq<u8>,
)
    requires
        distinct(views(sections)),
        fault(f, n_cu, sections, s, Ok(c)) is None,
        f.sect_programs != f.sect_metadata,
    ensures
        distinct(views(sections) + step_sections(f, s, c, metadata)),
{
    let old_ = views(sections);
    let add_ = step_sections(f, s, c, metadata);
    let all = old_ + add_;
    let n = old_.len() as int;
    let m = s.objects@.len() as int;
    assert forall|i: int, j: int| 0 <= i < j < all.len() implies section_id(#[trigger] all[i])
        != section_id(#[trigger] all[j]) by {
        if j < n {
            assert(section_id(old_[i]) != section_id(old_[j]));
        } else {
            let k = j - n;
            if k >= 2 {
                assert(add_[k] == object_section(f, s.objects@[k - 2]));
                assert(object_id(f, s.objects@, k - 2) == section_id(all[j]));
            }
            if i < n {
                assert(!taken(f, s, m, (sections[i].kind, sections[i].name@)));
                assert(section_id(all[i]) == (sections[i].kind, sections[i].name@));
            } else if k >= 2 {
                assert(!taken(f, s, k - 2, object_id(f, s.objects@, k - 2)));
                if i - n >= 2 {
                    assert(add_[i - n] == object_section(f, s.objects@[i - n - 2]));
                    assert(object_id(f, s.objects@, i - n - 2) == section_id(all[i]));
                }
            }
        }
    }
}

} // verus!

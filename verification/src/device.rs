//! What the Metal device probe observed. Every field is read from the live
//! device by the caller; nothing is inferred from the model name. This module
//! holds the report, its fixed forms when no device exists, and the choice of
//! GPU family name.
use crate::text::{chars_of, opt_view, or_text, owned, push_or, string_of};
use vstd::prelude::*;

verus! {

broadcast use vstd::string::group_string_axioms;

#[derive(Debug, Clone)]
pub struct DeviceReport {
    pub metal_available: bool,
    pub device_name: Option<String>,
    pub unified_memory: Option<bool>,
    pub recommended_max_working_set_bytes: Option<u64>,
    pub max_buffer_length_bytes: Option<u64>,
    pub max_threads_per_threadgroup: Option<[u64; 3]>,
    /// Highest Apple GPU family the device reports supporting (apple5..apple9).
    pub apple_gpu_family: Option<String>,
    pub registry_id: Option<u64>,
    pub note: Option<String>,
}

/// A report with no device: every measurement absent, and the given note.
pub open spec fn no_device(r: DeviceReport, note: Seq<char>) -> bool {
    &&& !r.metal_available
    &&& r.device_name is None
    &&& r.unified_memory is None
    &&& r.recommended_max_working_set_bytes is None
    &&& r.max_buffer_length_bytes is None
    &&& r.max_threads_per_threadgroup is None
    &&& r.apple_gpu_family is None
    &&& r.registry_id is None
    &&& opt_view(r.note) == Some(note)
}

fn without_device(note: String) -> (r: DeviceReport)
    ensures
        no_device(r, note@),
{
    DeviceReport {
        metal_available: false,
        device_name: None,
        unified_memory: None,
        recommended_max_working_set_bytes: None,
        max_buffer_length_bytes: None,
        max_threads_per_threadgroup: None,
        apple_gpu_family: None,
        registry_id: None,
        note: Some(note),
    }
}

/// The report on a platform other than macOS: Metal does not exist there.
pub fn probe() -> (r: DeviceReport)
    ensures
        no_device(r, "not macOS — Metal does not exist on this platform"@),
{
    without_device(owned("not macOS — Metal does not exist on this platform"))
}

/// The report on macOS when there is no system default Metal device.
pub fn no_default_device() -> (r: DeviceReport)
    ensures
        no_device(r, "no system default Metal device — GPU proving is impossible on this host"@),
{
    without_device(owned("no system default Metal device — GPU proving is impossible on this host"))
}

/// The Apple GPU families asked about, newest first.
pub open spec fn family_names() -> Seq<Seq<char>> {
    seq!["apple9"@, "apple8"@, "apple7"@, "apple6"@, "apple5"@]
}

/// The name of the newest family the device supports. `supported[i]` answers
/// for the i-th family of [`family_names`] (newest first).
pub fn highest_family(supported: &Vec<bool>) -> (r: Option<String>)
    requires
        supported@.len() == 5,
    ensures
        match r {
            Some(n) => exists|i: int|
                0 <= i < 5 && supported@[i] && n@ == family_names()[i] && forall|j: int|
                    0 <= j < i ==> !#[trigger] supported@[j],
            None => forall|i: int| 0 <= i < 5 ==> !#[trigger] supported@[i],
        },
{
    if supported[0] {
        Some(owned("apple9"))
    } else if supported[1] {
        Some(owned("apple8"))
    } else if supported[2] {
        Some(owned("apple7"))
    } else if supported[3] {
        Some(owned("apple6"))
    } else if supported[4] {
        Some(owned("apple5"))
    } else {
        None
    }
}

fn clone_opt(o: &Option<String>) -> (r: Option<String>)
    ensures
        r == *o,
{
    match o {
        Some(s) => Some(s.clone()),
        None => None,
    }
}

impl DeviceReport {
    /// The copy written to a shareable bundle: when redacting, the stable
    /// per-device registry id (a persistent machine identifier) is dropped.
    pub fn shareable(&self, redact: bool) -> (r: DeviceReport)
        ensures
            r.metal_available == self.metal_available,
            r.device_name == self.device_name,
            r.unified_memory == self.unified_memory,
            r.recommended_max_working_set_bytes == self.recommended_max_working_set_bytes,
            r.max_buffer_length_bytes == self.max_buffer_length_bytes,
            r.max_threads_per_threadgroup == self.max_threads_per_threadgroup,
            r.apple_gpu_family == self.apple_gpu_family,
            r.note == self.note,
            r.registry_id == if redact {
                None
            } else {
                self.registry_id
            },
    {
        DeviceReport {
            metal_available: self.metal_available,
            device_name: clone_opt(&self.device_name),
            unified_memory: self.unified_memory,
            recommended_max_working_set_bytes: self.recommended_max_working_set_bytes,
            max_buffer_length_bytes: self.max_buffer_length_bytes,
            max_threads_per_threadgroup: self.max_threads_per_threadgroup,
            apple_gpu_family: clone_opt(&self.apple_gpu_family),
            registry_id: if redact {
                None
            } else {
                self.registry_id
            },
            note: clone_opt(&self.note),
        }
    }
}

/// A size row of the device listing, present when the size was measured.
pub open spec fn size_row(label: Seq<char>, gb: Option<String>) -> Seq<char> {
    match gb {
        Some(t) => label + t@ + " GB\n"@,
        None => seq![],
    }
}

pub open spec fn memory_text(u: Option<bool>) -> Seq<char> {
    match u {
        Some(b) => if b {
            "true"@
        } else {
            "false"@
        },
        None => "?"@,
    }
}

pub open spec fn family_row(f: Option<String>) -> Seq<char> {
    match f {
        Some(f) => "  gpu family          "@ + f@ + "\n"@,
        None => seq![],
    }
}

/// The rows of a present device: name, memory kind, the measured sizes and
/// the GPU family.
pub open spec fn present_rows(
    d: DeviceReport,
    working_set_gb: Option<String>,
    max_buffer_gb: Option<String>,
) -> Seq<char> {
    "  name                "@ + or_text(d.device_name, "?"@) + "\n"@ + "  unified memory      "@
        + memory_text(d.unified_memory) + "\n"@ + size_row("  working set (rec.)  "@, working_set_gb)
        + size_row("  max buffer          "@, max_buffer_gb) + family_row(d.apple_gpu_family)
}

/// The human-readable device listing. `working_set_gb` and `max_buffer_gb`
/// are the two sizes in gigabytes as they are to be shown.
pub open spec fn device_text(
    d: DeviceReport,
    working_set_gb: Option<String>,
    max_buffer_gb: Option<String>,
) -> Seq<char> {
    "metal device\n"@ + if d.metal_available {
        present_rows(d, working_set_gb, max_buffer_gb)
    } else {
        "  none — "@ + or_text(d.note, "not available"@) + "\n"@
    }
}

fn push_size_row(s: &mut String, label: &str, gb: &Option<String>)
    ensures
        final(s)@ == old(s)@ + size_row(label@, *gb),
{
    match gb {
        Some(t) => {
            s.append(label);
            s.append(t.as_str());
            s.append(" GB\n");
        },
        None => {},
    }
}

fn memory_word(u: Option<bool>) -> (r: &'static str)
    ensures
        r@ == memory_text(u),
{
    match u {
        Some(b) => if b {
            "true"
        } else {
            "false"
        },
        None => "?",
    }
}

fn push_family_row(s: &mut String, f: &Option<String>)
    ensures
        final(s)@ == old(s)@ + family_row(*f),
{
    match f {
        Some(f) => {
            s.append("  gpu family          ");
            s.append(f.as_str());
            s.append("\n");
        },
        None => {},
    }
}

fn push_present_rows(
    s: &mut String,
    d: &DeviceReport,
    working_set_gb: &Option<String>,
    max_buffer_gb: &Option<String>,
)
    ensures
        final(s)@ == old(s)@ + present_rows(*d, *working_set_gb, *max_buffer_gb),
{
    let ghost s0 = s@;
    s.append("  name                ");
    push_or(s, &d.device_name, "?");
    s.append("\n");
    s.append("  unified memory      ");
    s.append(memory_word(d.unified_memory));
    s.append("\n");
    push_size_row(s, "  working set (rec.)  ", working_set_gb);
    push_size_row(s, "  max buffer          ", max_buffer_gb);
    push_family_row(s, &d.apple_gpu_family);
    assert(s@ =~= s0 + present_rows(*d, *working_set_gb, *max_buffer_gb));
}

impl DeviceReport {
    /// Render the report for a terminal. The caller formats the working-set
    /// and buffer sizes that the report holds (decimal gigabytes, one decimal
    /// place).
    pub fn render_human(&self, working_set_gb: &Option<String>, max_buffer_gb: &Option<String>) -> (out: String)
        ensures
            out@ == device_text(*self, *working_set_gb, *max_buffer_gb),
    {
        let mut s = owned("metal device\n");
        if self.metal_available {
            push_present_rows(&mut s, self, working_set_gb, max_buffer_gb);
        } else {
            s.append("  none — ");
            push_or(&mut s, &self.note, "not available");
            s.append("\n");
        }
        s
    }
}

} // verus!

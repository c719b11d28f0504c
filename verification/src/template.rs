//! Fingerprint templates: ISO 19794-2 bytes with a quality score, and the
//! finger that they were taken from.

use vstd::prelude::*;

verus! {

/// Failures of template handling.
#[derive(Debug, Clone, PartialEq)]
pub enum TemplateError {
    InvalidData(String),
    Nbis(String),
}

/// The finger a template was taken from, numbered as in ISO 19794-2
/// (`Unknown` is 0, the right hand 1 to 5, the left hand 6 to 10).
#[derive(Debug, Clone, Copy, PartialEq, Eq, Structural)]
pub enum FingerPosition {
    Unknown,
    RightThumb,
    RightIndex,
    RightMiddle,
    RightRing,
    RightLittle,
    LeftThumb,
    LeftIndex,
    LeftMiddle,
    LeftRing,
    LeftLittle,
}

/// The ISO code of a finger position.
pub open spec fn position_code(p: FingerPosition) -> i32 {
    match p {
        FingerPosition::Unknown => 0,
        FingerPosition::RightThumb => 1,
        FingerPosition::RightIndex => 2,
        FingerPosition::RightMiddle => 3,
        FingerPosition::RightRing => 4,
        FingerPosition::RightLittle => 5,
        FingerPosition::LeftThumb => 6,
        FingerPosition::LeftIndex => 7,
        FingerPosition::LeftMiddle => 8,
        FingerPosition::LeftRing => 9,
        FingerPosition::LeftLittle => 10,
    }
}

impl FingerPosition {
    /// The position with ISO code `value`; codes outside 0..=10 name none.
    pub fn from_i32(value: i32) -> (r: Option<FingerPosition>)
        ensures
            0 <= value <= 10 <==> r is Some,
            r matches Some(p) ==> position_code(p) == value,
    {
        match value {
            0 => Some(FingerPosition::Unknown),
            1 => Some(FingerPosition::RightThumb),
            2 => Some(FingerPosition::RightIndex),
            3 => Some(FingerPosition::RightMiddle),
            4 => Some(FingerPosition::RightRing),
            5 => Some(FingerPosition::RightLittle),
            6 => Some(FingerPosition::LeftThumb),
            7 => Some(FingerPosition::LeftIndex),
            8 => Some(FingerPosition::LeftMiddle),
            9 => Some(FingerPosition::LeftRing),
            10 => Some(FingerPosition::LeftLittle),
            _ => None,
        }
    }

    /// The ISO code of the position.
    pub fn to_i32(&self) -> (r: i32)
        ensures
            r == position_code(*self),
    {
        match self {
            FingerPosition::Unknown => 0,
            FingerPosition::RightThumb => 1,
            FingerPosition::RightIndex => 2,
            FingerPosition::RightMiddle => 3,
            FingerPosition::RightRing => 4,
            FingerPosition::RightLittle => 5,
            FingerPosition::LeftThumb => 6,
            FingerPosition::LeftIndex => 7,
            FingerPosition::LeftMiddle => 8,
            FingerPosition::LeftRing => 9,
            FingerPosition::LeftLittle => 10,
        }
    }
}

/// Decoding the code of a position gives back the position; each code of
/// 0..=10 is the code of exactly one position.
pub proof fn law_position_code_roundtrip(p: FingerPosition, q: FingerPosition)
    ensures
        0 <= position_code(p) <= 10,
        position_code(p) == position_code(q) ==> p == q,
{
}

/// The quality given to a template loaded from stored bytes.
pub const STORED_TEMPLATE_QUALITY: u32 = 50;

/// A fingerprint template: ISO 19794-2 bytes and a quality score.
#[derive(Debug, Clone)]
pub struct FingerprintTemplate {
    pub iso_bytes: Vec<u8>,
    pub quality: u32,
}

/// The content of a template.
pub struct TemplateView {
    pub iso_bytes: Seq<u8>,
    pub quality: u32,
}

impl View for FingerprintTemplate {
    type V = TemplateView;

    open spec fn view(&self) -> TemplateView {
        TemplateView { iso_bytes: self.iso_bytes@, quality: self.quality }
    }
}

fn copy_bytes(b: &Vec<u8>) -> (r: Vec<u8>)
    ensures
        r@ == b@,
{
    let c = b.clone();
    assert(c@ =~= b@);
    c
}

fn copy_slice(b: &[u8]) -> (r: Vec<u8>)
    ensures
        r@ == b@,
{
    let mut v: Vec<u8> = Vec::with_capacity(b.len());
    let mut i: usize = 0;
    while i < b.len()
        invariant
            i <= b@.len(),
            v@ == b@.take(i as int),
        decreases b.len() - i,
    {
        v.push(b[i]);
        i = i + 1;
        assert(v@ =~= b@.take(i as int));
    }
    assert(b@.take(b@.len() as int) =~= b@);
    v
}

/// The index of the first template of highest quality.
pub open spec fn first_best(qs: Seq<u32>, k: int) -> bool {
    &&& 0 <= k < qs.len()
    &&& forall|j: int| 0 <= j < qs.len() ==> qs[j] <= qs[k]
    &&& forall|j: int| 0 <= j < k ==> qs[j] < qs[k]
}

impl FingerprintTemplate {
    /// A copy of the template.
    pub fn duplicate(&self) -> (r: FingerprintTemplate)
        ensures
            r@ == self@,
    {
        FingerprintTemplate { iso_bytes: copy_bytes(&self.iso_bytes), quality: self.quality }
    }

    /// The stored form: the ISO bytes.
    pub fn to_bytes(&self) -> (r: Vec<u8>)
        ensures
            r@ == self@.iso_bytes,
    {
        copy_bytes(&self.iso_bytes)
    }

    /// A template from stored ISO bytes, with the default quality 50.
    pub fn from_bytes(data: &[u8]) -> (r: Result<FingerprintTemplate, TemplateError>)
        ensures
            r matches Ok(t) && t@.iso_bytes == data@ && t@.quality == STORED_TEMPLATE_QUALITY,
    {
        let v = copy_slice(data);
        Ok(FingerprintTemplate { iso_bytes: v, quality: STORED_TEMPLATE_QUALITY })
    }

    /// The compact form: the same ISO bytes (the minutiae limit is not
    /// applied).
    pub fn to_compact(&self, limit: usize) -> (r: CompactTemplate)
        ensures
            r.iso_bytes@ == self@.iso_bytes,
    {
        CompactTemplate { iso_bytes: copy_bytes(&self.iso_bytes) }
    }

    /// Templates cannot be combined minutia by minutia, so the merge keeps
    /// the template of highest quality, the first one among equals. An
    /// empty list is an error.
    pub fn merge(templates: &[&FingerprintTemplate]) -> (r: Result<FingerprintTemplate, TemplateError>)
        ensures
            templates@.len() == 0 ==> (r matches Err(TemplateError::InvalidData(m)) && m@
                == "No templates to merge"@),
            templates@.len() > 0 ==> (r matches Ok(t) && exists|k: int|
                first_best(templates@.map_values(|x: &FingerprintTemplate| x.quality), k)
                    && t@ == templates@[k]@),
    {
        let n = templates.len();
        if n == 0 {
            let msg = String::from_str("No templates to merge");
            return Err(TemplateError::InvalidData(msg));
        }
        let ghost qs = templates@.map_values(|x: &FingerprintTemplate| x.quality);
        let mut best: usize = 0;
        let mut i: usize = 1;
        while i < n
            invariant
                n == templates@.len(),
                qs == templates@.map_values(|x: &FingerprintTemplate| x.quality),
                1 <= i <= n,
                best < i,
                forall|j: int| 0 <= j < i ==> qs[j] <= qs[best as int],
                forall|j: int| 0 <= j < best ==> qs[j] < qs[best as int],
            decreases n - i,
        {
            if templates[i].quality > templates[best].quality {
                best = i;
            }
            i = i + 1;
        }
        let t = templates[best].duplicate();
        assert(first_best(qs, best as int));
        Ok(t)
    }
}

/// A compact template: ISO bytes only.
#[derive(Debug, Clone)]
pub struct CompactTemplate {
    pub iso_bytes: Vec<u8>,
}

impl CompactTemplate {
    /// The stored form: the ISO bytes.
    pub fn to_bytes(&self) -> (r: Vec<u8>)
        ensures
            r@ == self.iso_bytes@,
    {
        copy_bytes(&self.iso_bytes)
    }

    /// A compact template from stored bytes.
    pub fn from_bytes(data: &[u8]) -> (r: Result<CompactTemplate, TemplateError>)
        ensures
            r matches Ok(t) && t.iso_bytes@ == data@,
    {
        let v = copy_slice(data);
        Ok(CompactTemplate { iso_bytes: v })
    }
}

/// The vendor's native template container, which this library does not
/// read or write.
#[derive(Debug, Clone)]
pub struct NativeTemplateContainer {}

impl NativeTemplateContainer {
    /// Always refused: native parsing is not supported.
    pub fn parse(data: &[u8]) -> (r: Result<NativeTemplateContainer, TemplateError>)
        ensures
            r matches Err(TemplateError::InvalidData(m)) && m@ == "Native parsing unsupported"@,
    {
        let msg = String::from_str("Native parsing unsupported");
        Err(TemplateError::InvalidData(msg))
    }

    /// Always refused: the native format is not supported.
    pub fn to_bytes(&self) -> (r: Result<Vec<u8>, TemplateError>)
        ensures
            r matches Err(TemplateError::InvalidData(m)) && m@ == "Native format unsupported"@,
    {
        let msg = String::from_str("Native format unsupported");
        Err(TemplateError::InvalidData(msg))
    }
}

/// A template as found in memory: logical (ISO) or native.
#[derive(Debug, Clone)]
pub enum TemplateMemoryBlock {
    Logical(FingerprintTemplate),
    Native(NativeTemplateContainer),
}

impl TemplateMemoryBlock {
    /// Reads stored bytes as a logical template.
    pub fn parse(data: &[u8]) -> (r: Result<TemplateMemoryBlock, TemplateError>)
        ensures
            r matches Ok(TemplateMemoryBlock::Logical(t)) && t@.iso_bytes == data@ && t@.quality
                == STORED_TEMPLATE_QUALITY,
    {
        match FingerprintTemplate::from_bytes(data) {
            Ok(t) => Ok(TemplateMemoryBlock::Logical(t)),
            Err(e) => Err(e),
        }
    }
}

} // verus!

//! The export table of a library image. The image is read by the `exe`
//! crate; which names the table holds, and which of them count, is decided
//! here.

use vstd::prelude::*;
use crate::error::ProxyError;
use crate::export_set::{is_extracted_from, texts, ExportSet};
use crate::exports::{is_reserved, ExportDescriptor};
use crate::hooks::Arch;
use crate::order::ascending;

verus! {

/// `exe::VecPE`: an image, with its bytes.
#[verifier::external_type_specification]
#[verifier::external_body]
pub struct ExVecPE(exe::VecPE);

/// `exe::Error`: why an image cannot be read.
#[verifier::external_type_specification]
#[verifier::external_body]
pub struct ExExeError(exe::Error);

/// The bytes that an image holds.
pub uninterp spec fn image_bytes(pe: exe::VecPE) -> Seq<u8>;

/// Whether an image holds its bytes as they stand in a file, and not as they
/// are laid out once the library is loaded.
pub uninterp spec fn image_on_disk(pe: exe::VecPE) -> bool;

/// The processor that the headers of the file with the bytes `bytes` name,
/// where `exe::PE::get_arch` finds one.
pub uninterp spec fn image_arch(bytes: Seq<u8>) -> Option<Arch>;

/// The address of the table of name ordinals that the export directory of
/// the file with the bytes `bytes` gives, where `exe` can read the directory.
pub uninterp spec fn image_ordinals_address(bytes: Seq<u8>) -> Option<u32>;

/// The number of functions in the export directory of the file with the
/// bytes `bytes`, where `exe` can read the directory and its functions.
pub uninterp spec fn image_function_count(bytes: Seq<u8>) -> Option<nat>;

/// The addresses of the names in the export directory of the file with the
/// bytes `bytes`, where `exe` can read the directory and its names.
pub uninterp spec fn image_name_addresses(bytes: Seq<u8>) -> Option<Seq<u32>>;

/// For each name in the export directory of the file with the bytes
/// `bytes` the place of its function, where `exe` can read them.
pub uninterp spec fn image_name_ordinals(bytes: Seq<u8>) -> Option<Seq<u16>>;

/// The zero-terminated text at the address `address` of the file with the
/// bytes `bytes`, where `exe` finds one.
pub uninterp spec fn image_name_at(bytes: Seq<u8>, address: u32) -> Option<Seq<char>>;

/// The number that the two bytes at `at` write, the low byte first.
pub open spec fn le16(bytes: Seq<u8>, at: int) -> int {
    bytes[at] as int + 256 * (bytes[at + 1] as int)
}

/// The number that the four bytes at `at` write, the low byte first.
pub open spec fn le32(bytes: Seq<u8>, at: int) -> int {
    bytes[at] as int + 256 * (bytes[at + 1] as int) + 65536 * (bytes[at + 2] as int) + 16777216
        * (bytes[at + 3] as int)
}

/// Where the headers of the image begin.
pub open spec fn headers_at(bytes: Seq<u8>) -> int {
    le32(bytes, 60)
}

/// The number of sections that the headers give.
pub open spec fn section_count(bytes: Seq<u8>) -> int {
    le16(bytes, headers_at(bytes) + 6)
}

/// The size of the optional header that the headers give.
pub open spec fn optional_size(bytes: Seq<u8>) -> int {
    le16(bytes, headers_at(bytes) + 20)
}

/// Where the section table begins.
pub open spec fn section_table_at(bytes: Seq<u8>) -> int {
    headers_at(bytes) + 24 + optional_size(bytes)
}

/// Whether the section whose header stands at `at` can be asked for any
/// address: its end in memory, its end in the file and the place in the file
/// of its last address all stay below 2^32, and an even address has an even
/// place in the file.
pub open spec fn section_is_tame(bytes: Seq<u8>, at: int) -> bool {
    let virtual_size = le32(bytes, at + 8);
    let virtual_address = le32(bytes, at + 12);
    let size_of_raw_data = le32(bytes, at + 16);
    let pointer_to_raw_data = le32(bytes, at + 20);
    &&& virtual_address + virtual_size < 0x1_0000_0000
    &&& pointer_to_raw_data + size_of_raw_data < 0x1_0000_0000
    &&& pointer_to_raw_data + virtual_size < 0x1_0000_0000
    &&& virtual_address % 2 == pointer_to_raw_data % 2
}

/// Whether addresses of the image can be translated without harm: the
/// headers and the section table stand in the file, at multiples of four,
/// and every section is tame. On other images `exe` adds fields of the file
/// beyond what a `u32` holds, or reads a table at a place that is no
/// multiple of the size of its entries.
pub open spec fn is_tame(bytes: Seq<u8>) -> bool {
    &&& 64 <= bytes.len() < 0x8000_0000
    &&& headers_at(bytes) % 4 == 0
    &&& headers_at(bytes) + 24 <= bytes.len()
    &&& optional_size(bytes) % 4 == 0
    &&& section_table_at(bytes) + 40 * section_count(bytes) <= bytes.len()
    &&& forall|i: int|
        0 <= i < section_count(bytes) ==> section_is_tame(
            bytes,
            #[trigger] (section_table_at(bytes) + 40 * i),
        )
}

/// `exe::VecPE::from_disk_data`: an image that holds a copy of the bytes of
/// a file.
#[verifier::external_body]
fn image_of(data: &Vec<u8>) -> (pe: exe::VecPE)
    ensures
        image_bytes(pe) == data@,
        image_on_disk(pe),
{
    exe::VecPE::from_disk_data(data)
}

/// `exe::PE::get_arch`: the processor that the headers of the image name.
#[verifier::external_body]
fn arch_of(pe: &exe::VecPE) -> (r: Result<Arch, exe::Error>)
    ensures
        r matches Ok(arch) ==> image_arch(image_bytes(*pe)) == Some(arch),
        r is Err ==> image_arch(image_bytes(*pe)) is None,
{
    match exe::PE::get_arch(pe) {
        Ok(exe::Arch::X86) => Ok(Arch::X86),
        Ok(exe::Arch::X64) => Ok(Arch::X64),
        Err(e) => Err(e),
    }
}

/// `exe::ImageExportDirectory::parse` and `get_functions`: the number of
/// functions in the export directory.
#[verifier::external_body]
fn function_count(pe: &exe::VecPE) -> (r: Result<usize, exe::Error>)
    requires
        image_on_disk(*pe),
        is_tame(image_bytes(*pe)),
    ensures
        r matches Ok(n) ==> image_function_count(image_bytes(*pe)) == Some(n as nat),
        r is Err ==> image_function_count(image_bytes(*pe)) is None,
{
    Ok(exe::headers::ImageExportDirectory::parse(pe)?.get_functions(pe)?.len())
}

/// `exe::ImageExportDirectory::parse` and `get_names`: the addresses of the
/// names in the export directory.
#[verifier::external_body]
fn name_addresses(pe: &exe::VecPE) -> (r: Result<Vec<u32>, exe::Error>)
    requires
        image_on_disk(*pe),
        is_tame(image_bytes(*pe)),
    ensures
        r matches Ok(v) ==> image_name_addresses(image_bytes(*pe)) == Some(v@),
        r is Err ==> image_name_addresses(image_bytes(*pe)) is None,
{
    let names = exe::headers::ImageExportDirectory::parse(pe)?.get_names(pe)?;
    Ok(names.iter().map(|rva| rva.0).collect())
}

/// `exe::ImageExportDirectory::parse`: the address of the table of name
/// ordinals, as the export directory gives it.
#[verifier::external_body]
fn ordinals_address(pe: &exe::VecPE) -> (r: Result<u32, exe::Error>)
    requires
        image_on_disk(*pe),
        is_tame(image_bytes(*pe)),
    ensures
        r matches Ok(a) ==> image_ordinals_address(image_bytes(*pe)) == Some(a),
        r is Err ==> image_ordinals_address(image_bytes(*pe)) is None,
{
    Ok(exe::headers::ImageExportDirectory::parse(pe)?.address_of_name_ordinals.0)
}

/// `exe::ImageExportDirectory::parse` and `get_name_ordinals`: for each
/// name, the place of its function among the functions. The table is read
/// as a slice of `u16`, so its address must be even; in a tame image its
/// place in the file is then even too.
#[verifier::external_body]
fn name_ordinals(pe: &exe::VecPE) -> (r: Result<Vec<u16>, exe::Error>)
    requires
        image_on_disk(*pe),
        is_tame(image_bytes(*pe)),
        image_ordinals_address(image_bytes(*pe)) matches Some(a) ==> a % 2 == 0,
    ensures
        r matches Ok(v) ==> image_name_ordinals(image_bytes(*pe)) == Some(v@),
        r is Err ==> image_name_ordinals(image_bytes(*pe)) is None,
{
    Ok(exe::headers::ImageExportDirectory::parse(pe)?.get_name_ordinals(pe)?.to_vec())
}

/// `exe::PE::translate`, `exe::PE::get_cstring` and
/// `exe::CCharString::as_str`: the zero-terminated text at an address of the
/// image, where there is one.
#[verifier::external_body]
fn name_at(pe: &exe::VecPE, address: u32) -> (r: Option<String>)
    requires
        image_on_disk(*pe),
        is_tame(image_bytes(*pe)),
    ensures
        r matches Some(name) ==> image_name_at(image_bytes(*pe), address) == Some(name@),
        r is None ==> image_name_at(image_bytes(*pe), address) is None,
{
    let place = exe::PETranslation::Memory(exe::RVA(address));
    let offset = exe::PE::translate(pe, place).ok()?;
    let name = exe::PE::get_cstring(pe, offset, false, None).ok()?;
    exe::CCharString::as_str(name).ok().map(String::from)
}

/// The names that the first `k` entries of an export table give, in the
/// order of the table. An entry without address, or whose text cannot be
/// read, gives no name. An entry with a name that points to no function
/// makes the table unreadable.
pub open spec fn names_among(
    bytes: Seq<u8>,
    addresses: Seq<u32>,
    ordinals: Seq<u16>,
    count: nat,
    k: int,
) -> Option<Seq<Seq<char>>>
    decreases k,
{
    if k <= 0 {
        Some(Seq::empty())
    } else {
        match names_among(bytes, addresses, ordinals, count, k - 1) {
            None => None,
            Some(found) => if addresses[k - 1] == 0 {
                Some(found)
            } else {
                match image_name_at(bytes, addresses[k - 1]) {
                    None => Some(found),
                    Some(name) => if k - 1 >= ordinals.len() || ordinals[k - 1] >= count {
                        None
                    } else {
                        Some(found.push(name))
                    },
                }
            },
        }
    }
}

/// The names in the export table of the file with the bytes `bytes`, as
/// they stand there, where the table can be read: the image is tame, `exe`
/// reads the directory and its three tables, the table of name ordinals
/// stands at an even address, and every name points to a function.
pub open spec fn export_names(bytes: Seq<u8>) -> Option<Seq<Seq<char>>> {
    if !is_tame(bytes) {
        None
    } else {
        match (
            image_function_count(bytes),
            image_name_addresses(bytes),
            image_ordinals_address(bytes),
        ) {
            (Some(count), Some(addresses), Some(a)) => if a % 2 != 0 {
                None
            } else {
                match image_name_ordinals(bytes) {
                    Some(ordinals) => names_among(
                        bytes,
                        addresses,
                        ordinals,
                        count,
                        addresses.len() as int,
                    ),
                    None => None,
                }
            },
            _ => None,
        }
    }
}

/// Whether `s` is the canonical set of the exports that extraction takes
/// from the names `names`.
pub open spec fn is_canonical_for(s: ExportSet, names: Seq<Seq<char>>) -> bool {
    &&& s.wf()
    &&& ascending(s@)
    &&& forall|x: ExportDescriptor| s@.contains(x) <==> is_extracted_from(x, names)
    &&& forall|i: int| 0 <= i < s@.len() ==> !is_reserved(#[trigger] s@[i].sanitized_name)
}

/// Whether `r` is what extraction owes for the file with the bytes `bytes`:
/// an error where the processor is unknown, an error where the export table
/// cannot be read, and else the canonical set of the exports that the names
/// of the table give.
pub open spec fn is_extraction_of(r: Result<ExportSet, ProxyError>, bytes: Seq<u8>) -> bool {
    match r {
        Ok(s) => image_arch(bytes) is Some && export_names(bytes) is Some && is_canonical_for(
            s,
            export_names(bytes)->0,
        ),
        Err(e) => if image_arch(bytes) is None {
            e == ProxyError::ArchitectureError
        } else {
            e == ProxyError::ParseError && export_names(bytes) is None
        },
    }
}

/// A table that is unreadable up to an entry is unreadable as a whole.
proof fn lemma_unreadable(
    bytes: Seq<u8>,
    addresses: Seq<u32>,
    ordinals: Seq<u16>,
    count: nat,
    k: int,
    n: int,
)
    requires
        0 <= k <= n,
        names_among(bytes, addresses, ordinals, count, k) is None,
    ensures
        names_among(bytes, addresses, ordinals, count, n) is None,
    decreases n - k,
{
    if k < n {
        lemma_unreadable(bytes, addresses, ordinals, count, k, n - 1);
    }
}

fn read16(data: &Vec<u8>, at: usize) -> (r: u64)
    requires
        at + 2 <= data.len(),
    ensures
        r == le16(data@, at as int),
        r < 0x1_0000,
{
    let low: u64 = data[at] as u64;
    let high: u64 = data[at + 1] as u64;
    low + 256 * high
}

fn read32(data: &Vec<u8>, at: usize) -> (r: u64)
    requires
        at + 4 <= data.len(),
    ensures
        r == le32(data@, at as int),
        r < 0x1_0000_0000,
{
    let first: u64 = data[at] as u64;
    let second: u64 = data[at + 1] as u64;
    let third: u64 = data[at + 2] as u64;
    let fourth: u64 = data[at + 3] as u64;
    first + 256 * second + 65536 * third + 16777216 * fourth
}

fn tame_section(data: &Vec<u8>, at: usize) -> (r: bool)
    requires
        at + 40 <= data.len(),
    ensures
        r == section_is_tame(data@, at as int),
{
    let virtual_size: u64 = read32(data, at + 8);
    let virtual_address: u64 = read32(data, at + 12);
    let size_of_raw_data: u64 = read32(data, at + 16);
    let pointer_to_raw_data: u64 = read32(data, at + 20);
    virtual_address + virtual_size < 0x1_0000_0000 && pointer_to_raw_data + size_of_raw_data
        < 0x1_0000_0000 && pointer_to_raw_data + virtual_size < 0x1_0000_0000 && virtual_address
        % 2 == pointer_to_raw_data % 2
}

/// Whether addresses of the image with the bytes `data` can be translated
/// without harm.
pub fn tame(data: &Vec<u8>) -> (r: bool)
    ensures
        r == is_tame(data@),
{
    let len: usize = data.len();
    if len < 64 || len >= 0x8000_0000 {
        return false;
    }
    let headers: u64 = read32(data, 60);
    if headers % 4 != 0 || headers + 24 > len as u64 {
        return false;
    }
    let at: usize = headers as usize;
    let sections: u64 = read16(data, at + 6);
    let optional: u64 = read16(data, at + 20);
    if optional % 4 != 0 {
        return false;
    }
    let table: u64 = headers + 24 + optional;
    if table + 40 * sections > len as u64 {
        return false;
    }
    let first: usize = table as usize;
    let count: usize = sections as usize;
    let mut i: usize = 0;
    while i < count
        invariant
            i <= count,
            count == section_count(data@),
            first == section_table_at(data@),
            first + 40 * count <= data.len(),
            forall|j: int|
                0 <= j < i ==> section_is_tame(data@, #[trigger] (section_table_at(data@) + 40 * j)),
        decreases count - i,
    {
        if !tame_section(data, first + 40 * i) {
            assert(!section_is_tame(data@, section_table_at(data@) + 40 * i));
            return false;
        }
        i += 1;
    }
    true
}

/// The image of a library.
pub struct DLLFile {
    data: Vec<u8>,
    pe_file: exe::VecPE,
}

impl View for DLLFile {
    type V = Seq<u8>;

    /// The bytes of the file.
    closed spec fn view(&self) -> Seq<u8> {
        self.data@
    }
}

/// What is made of the names of an export table: the processor must be
/// known, the table must be readable, and then the exports are those that
/// extraction takes from the names.
pub fn exports_of(arch: Option<Arch>, names: Option<Vec<String>>) -> (r: Result<
    ExportSet,
    ProxyError,
>)
    ensures
        arch is None ==> (r matches Err(e) && e == ProxyError::ArchitectureError),
        arch is Some && names is None ==> (r matches Err(e) && e == ProxyError::ParseError),
        arch is Some && names is Some ==> (r matches Ok(s) && is_canonical_for(
            s,
            texts(names->0@),
        )),
{
    if arch.is_none() {
        return Err(ProxyError::ArchitectureError);
    }
    match names {
        None => Err(ProxyError::ParseError),
        Some(raw) => Ok(ExportSet::from_raw_names(&raw)),
    }
}

impl DLLFile {
    #[verifier::type_invariant]
    spec fn holds_the_file(self) -> bool {
        image_on_disk(self.pe_file) && image_bytes(self.pe_file) == self.data@
    }

    /// The image that the bytes `data` of a file hold.
    pub fn new(data: &Vec<u8>) -> (file: DLLFile)
        ensures
            file@ == data@,
    {
        DLLFile { data: data.clone(), pe_file: image_of(data) }
    }

    /// The processor that the library is built for.
    pub fn get_arch(&self) -> (r: Result<Arch, ProxyError>)
        ensures
            match image_arch(self@) {
                Some(arch) => r == Ok::<Arch, ProxyError>(arch),
                None => r == Err::<Arch, ProxyError>(ProxyError::ArchitectureError),
            },
    {
        proof {
            use_type_invariant(self);
        }
        match arch_of(&self.pe_file) {
            Ok(arch) => Ok(arch),
            Err(_) => Err(ProxyError::ArchitectureError),
        }
    }

    /// The names in the export table, as they stand there. A name whose
    /// text cannot be read is passed over; a name that points to no function
    /// makes the table unreadable, and so does an image that is not tame.
    ///
    /// The table is walked here, entry by entry, and not by
    /// `exe::ImageExportDirectory::get_export_map`: that function takes the
    /// function of a name by an index that it does not test, and stops the
    /// program where a name points to no function.
    pub fn get_export_names(&self) -> (r: Result<Vec<String>, ProxyError>)
        ensures
            match export_names(self@) {
                Some(names) => r matches Ok(v) && texts(v@) == names,
                None => r matches Err(e) && e == ProxyError::ParseError,
            },
    {
        proof {
            use_type_invariant(self);
        }
        if !tame(&self.data) {
            return Err(ProxyError::ParseError);
        }
        let count: usize = match function_count(&self.pe_file) {
            Ok(n) => n,
            Err(_) => {
                return Err(ProxyError::ParseError);
            },
        };
        let addresses = match name_addresses(&self.pe_file) {
            Ok(v) => v,
            Err(_) => {
                return Err(ProxyError::ParseError);
            },
        };
        match ordinals_address(&self.pe_file) {
            Ok(a) => {
                if a % 2 != 0 {
                    return Err(ProxyError::ParseError);
                }
            },
            Err(_) => {
                return Err(ProxyError::ParseError);
            },
        }
        let ordinals = match name_ordinals(&self.pe_file) {
            Ok(v) => v,
            Err(_) => {
                return Err(ProxyError::ParseError);
            },
        };
        let mut names: Vec<String> = Vec::new();
        let mut i: usize = 0;
        assert(texts(names@) =~= Seq::<Seq<char>>::empty());
        while i < addresses.len()
            invariant
                i <= addresses.len(),
                image_on_disk(self.pe_file),
                image_bytes(self.pe_file) == self@,
                is_tame(self@),
                image_ordinals_address(self@) matches Some(a) && a % 2 == 0,
                image_function_count(self@) == Some(count as nat),
                image_name_addresses(self@) == Some(addresses@),
                image_name_ordinals(self@) == Some(ordinals@),
                names_among(self@, addresses@, ordinals@, count as nat, i as int) == Some(
                    texts(names@),
                ),
            decreases addresses.len() - i,
        {
            let address: u32 = addresses[i];
            if address != 0 {
                match name_at(&self.pe_file, address) {
                    Some(name) => {
                        if i >= ordinals.len() || ordinals[i] as usize >= count {
                            proof {
                                assert(names_among(
                                    self@,
                                    addresses@,
                                    ordinals@,
                                    count as nat,
                                    i + 1,
                                ) is None);
                                lemma_unreadable(
                                    self@,
                                    addresses@,
                                    ordinals@,
                                    count as nat,
                                    i + 1,
                                    addresses.len() as int,
                                );
                            }
                            return Err(ProxyError::ParseError);
                        }
                        let ghost before = texts(names@);
                        let ghost text = name@;
                        names.push(name);
                        assert(texts(names@) =~= before.push(text));
                    },
                    None => {},
                }
            }
            i += 1;
        }
        Ok(names)
    }

    /// The exports of the library, in canonical order, without the names
    /// that generated code defines itself.
    pub fn get_exports(&self) -> (r: Result<ExportSet, ProxyError>)
        ensures
            is_extraction_of(r, self@),
    {
        let arch: Option<Arch> = match self.get_arch() {
            Ok(a) => Some(a),
            Err(_) => None,
        };
        let names: Option<Vec<String>> = if arch.is_some() {
            match self.get_export_names() {
                Ok(raw) => Some(raw),
                Err(_) => None,
            }
        } else {
            None
        };
        exports_of(arch, names)
    }
}

/// The exports of the library whose file holds the bytes `data`.
pub fn get_exports(data: &Vec<u8>) -> (r: Result<ExportSet, ProxyError>)
    ensures
        is_extraction_of(r, data@),
{
    DLLFile::new(data).get_exports()
}

} // verus!

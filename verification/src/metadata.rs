//! The metadata that a module carries at run time.
use crate::assoc::AssocMap;
use crate::model::{ModuleId, ModuleIdView};
use crate::outside::{bcs_error_map, bcs_metadata, error_map_to_bytes, metadata_to_bytes};
use std::collections::BTreeMap;
use vstd::prelude::*;

verus! {

/// For each error code its name and its description.
pub type ErrorMap = BTreeMap<u64, (String, String)>;

/// For each name the attributes it carries, each with its kind and its arguments.
pub type KnownAttributes = BTreeMap<String, Vec<(u8, Vec<String>)>>;

/// The run-time metadata of a module.
#[derive(Debug)]
pub struct RuntimeModuleMetadataV1 {
    pub error_map: ErrorMap,
    pub struct_attributes: KnownAttributes,
    pub fun_attributes: KnownAttributes,
}

/// Metadata that says nothing.
pub open spec fn empty_metadata(m: RuntimeModuleMetadataV1) -> bool {
    m.error_map@.is_empty() && m.struct_attributes@.is_empty() && m.fun_attributes@.is_empty()
}

impl RuntimeModuleMetadataV1 {
    /// Whether the metadata says nothing.
    pub fn is_empty(&self) -> (r: bool)
        ensures
            r == empty_metadata(*self),
    {
        self.error_map.is_empty() && self.struct_attributes.is_empty()
            && self.fun_attributes.is_empty()
    }
}

/// An entry of the metadata section of a compiled module.
#[derive(Debug)]
pub struct Metadata {
    pub key: Vec<u8>,
    pub value: Vec<u8>,
}

/// What a [`Metadata`] stands for.
pub struct MetadataView {
    pub key: Seq<u8>,
    pub value: Seq<u8>,
}

impl View for Metadata {
    type V = MetadataView;

    open spec fn view(&self) -> MetadataView {
        MetadataView { key: self.key@, value: self.value@ }
    }
}

impl Clone for Metadata {
    fn clone(&self) -> (r: Self)
        ensures
            r@ == self@,
    {
        Metadata { key: self.key.clone(), value: self.value.clone() }
    }
}

/// What is read and changed of a compiled module: its id, whether each function and each struct
/// definition is native, and its metadata section.
#[derive(Debug)]
pub struct CompiledModule {
    pub id: ModuleId,
    pub native_functions: Vec<bool>,
    pub native_structs: Vec<bool>,
    pub metadata: Vec<Metadata>,
}

/// What a [`CompiledModule`] stands for.
pub struct CompiledModuleView {
    pub id: ModuleIdView,
    pub native_functions: Seq<bool>,
    pub native_structs: Seq<bool>,
    pub metadata: Seq<MetadataView>,
}

impl View for CompiledModule {
    type V = CompiledModuleView;

    open spec fn view(&self) -> CompiledModuleView {
        CompiledModuleView {
            id: self.id@,
            native_functions: self.native_functions@,
            native_structs: self.native_structs@,
            metadata: self.metadata@.map_values(|m: Metadata| m@),
        }
    }
}

impl Clone for CompiledModule {
    fn clone(&self) -> (r: Self)
        ensures
            r@ == self@,
    {
        let mut metadata: Vec<Metadata> = Vec::new();
        let mut i: usize = 0;
        while i < self.metadata.len()
            invariant
                i <= self.metadata@.len(),
                metadata@.len() == i,
                forall|j: int| 0 <= j < i ==> (#[trigger] metadata@[j])@ == self.metadata@[j]@,
            decreases self.metadata.len() - i,
        {
            metadata.push(self.metadata[i].clone());
            i += 1;
        }
        let r = CompiledModule {
            id: self.id.clone(),
            native_functions: self.native_functions.clone(),
            native_structs: self.native_structs.clone(),
            metadata,
        };
        assert(r@.metadata =~= self@.metadata);
        assert(r@.native_functions =~= self@.native_functions);
        assert(r@.native_structs =~= self@.native_structs);
        r
    }
}

/// The keys under which the two forms of the metadata stand, and the bytecode version from which
/// on the newer form is in use.
#[derive(Debug)]
pub struct MetadataFormat {
    pub key_v0: Vec<u8>,
    pub key_v1: Vec<u8>,
    pub v1_min_version: u32,
}

/// The metadata could not be written in its binary form.
#[derive(Clone, Copy, PartialEq, Eq, Debug, Structural)]
pub enum MetadataError {
    Unserializable,
}

/// Whether the newer form is used: always without a bytecode version, else from the first version
/// that has it.
pub open spec fn newer_form(bytecode_version: Option<u32>, format: MetadataFormat) -> bool {
    match bytecode_version {
        Some(v) => v >= format.v1_min_version,
        None => true,
    }
}

/// The bytes that metadata is written as: all of it in the newer form, the error map alone in the
/// older one.
pub open spec fn metadata_bytes(m: RuntimeModuleMetadataV1, newer: bool) -> Option<Seq<u8>> {
    if newer {
        bcs_metadata(
            m.error_map.deep_view(),
            m.struct_attributes.deep_view(),
            m.fun_attributes.deep_view(),
        )
    } else {
        bcs_error_map(m.error_map.deep_view())
    }
}

/// The entry for metadata that was written as some bytes, under the key of its form.
pub open spec fn entry_of_bytes(
    newer: bool,
    bytes: Option<Seq<u8>>,
    format: MetadataFormat,
) -> Result<MetadataView, MetadataError> {
    match bytes {
        Some(value) => Ok(
            MetadataView { key: if newer { format.key_v1@ } else { format.key_v0@ }, value },
        ),
        None => Err(MetadataError::Unserializable),
    }
}

/// The entry that metadata gives rise to.
pub open spec fn metadata_entry(
    m: RuntimeModuleMetadataV1,
    bytecode_version: Option<u32>,
    format: MetadataFormat,
) -> Result<MetadataView, MetadataError> {
    let newer = newer_form(bytecode_version, format);
    entry_of_bytes(newer, metadata_bytes(m, newer), format)
}

/// The entry that a module is given: none without metadata, or where the metadata says nothing.
pub open spec fn injected_entry(
    metadatas: Map<ModuleIdView, RuntimeModuleMetadataV1>,
    id: ModuleIdView,
    bytecode_version: Option<u32>,
    format: MetadataFormat,
) -> Result<Option<MetadataView>, MetadataError> {
    if metadatas.contains_key(id) && !empty_metadata(metadatas[id]) {
        match metadata_entry(metadatas[id], bytecode_version, format) {
            Ok(entry) => Ok(Some(entry)),
            Err(e) => Err(e),
        }
    } else {
        Ok(None)
    }
}

/// A module with one more entry at the end of its metadata section, or as it was.
pub open spec fn with_entry(
    module: CompiledModuleView,
    entry: Option<MetadataView>,
) -> CompiledModuleView {
    match entry {
        Some(e) => CompiledModuleView { metadata: module.metadata.push(e), ..module },
        None => module,
    }
}

/// Whether a bytecode version asks for the newer form.
pub fn uses_newer_form(bytecode_version: Option<u32>, format: &MetadataFormat) -> (r: bool)
    ensures
        r == newer_form(bytecode_version, *format),
{
    let version: u32 = match bytecode_version {
        Some(v) => v,
        None => format.v1_min_version,
    };
    version >= format.v1_min_version
}

/// The entry for metadata that was written as some bytes, or could not be written.
pub fn entry_from_bytes(newer: bool, bytes: Option<Vec<u8>>, format: &MetadataFormat) -> (r: Result<
    Metadata,
    MetadataError,
>)
    ensures
        match r {
            Ok(entry) => bytes matches Some(b) && entry_of_bytes(newer, Some(b@), *format) == Ok::<
                MetadataView,
                MetadataError,
            >(entry@),
            Err(e) => bytes is None && e == MetadataError::Unserializable,
        },
{
    match bytes {
        Some(value) => {
            let key: Vec<u8> = if newer {
                format.key_v1.clone()
            } else {
                format.key_v0.clone()
            };
            Ok(Metadata { key, value })
        },
        None => Err(MetadataError::Unserializable),
    }
}

/// The entry for metadata in the form that a bytecode version asks for.
pub fn build_entry(
    m: &RuntimeModuleMetadataV1,
    bytecode_version: Option<u32>,
    format: &MetadataFormat,
) -> (r: Result<Metadata, MetadataError>)
    ensures
        match r {
            Ok(entry) => metadata_entry(*m, bytecode_version, *format) == Ok::<
                MetadataView,
                MetadataError,
            >(entry@),
            Err(e) => metadata_entry(*m, bytecode_version, *format) == Err::<
                MetadataView,
                MetadataError,
            >(e),
        },
{
    let newer: bool = uses_newer_form(bytecode_version, format);
    let written = if newer {
        metadata_to_bytes(&m.error_map, &m.struct_attributes, &m.fun_attributes)
    } else {
        error_map_to_bytes(&m.error_map)
    };
    let bytes: Option<Vec<u8>> = match written {
        Ok(b) => Some(b),
        Err(_) => None,
    };
    entry_from_bytes(newer, bytes, format)
}

/// Appends a module's run-time metadata to its metadata section.
pub fn inject_runtime_metadata(
    module: &mut CompiledModule,
    metadatas: &AssocMap<ModuleId, RuntimeModuleMetadataV1>,
    bytecode_version: Option<u32>,
    format: &MetadataFormat,
) -> (r: Result<(), MetadataError>)
    ensures
        match injected_entry(metadatas@, old(module)@.id, bytecode_version, *format) {
            Ok(entry) => r is Ok && final(module)@ == with_entry(old(module)@, entry),
            Err(e) => r == Err::<(), MetadataError>(e) && final(module)@ == old(module)@,
        },
        r is Ok ==> final(module).metadata@.len() == old(module).metadata@.len() + (
        if metadatas@.contains_key(old(module).id@) && has_some_entry(
            metadatas@[old(module).id@],
        ) {
            1int
        } else {
            0int
        }),
        r is Err ==> final(module).metadata@.len() == old(module).metadata@.len(),
{
    if let Some(m) = metadatas.get(&module.id) {
        proof {
            metadata_says_nothing_iff_all_maps_are_empty(*m);
        }
        if !m.is_empty() {
            match build_entry(m, bytecode_version, format) {
                Ok(entry) => {
                    module.metadata.push(entry);
                    assert(module@.metadata =~= old(module)@.metadata.push(entry@));
                },
                Err(e) => {
                    return Err(e);
                },
            }
        }
    }
    Ok(())
}

/// Giving a module its metadata changes nothing but the end of its metadata section: at most one
/// entry comes on, and whatever stood there stays.
pub proof fn injection_only_appends(module: CompiledModuleView, entry: Option<MetadataView>)
    ensures
        with_entry(module, entry).id == module.id,
        with_entry(module, entry).native_functions == module.native_functions,
        with_entry(module, entry).native_structs == module.native_structs,
        module.metadata.len() <= with_entry(module, entry).metadata.len()
            <= module.metadata.len() + 1,
        module.metadata == with_entry(module, entry).metadata.take(module.metadata.len() as int),
{
    assert(module.metadata =~= with_entry(module, entry).metadata.take(
        module.metadata.len() as int,
    ));
}

/// Metadata says nothing exactly when none of its three maps has an entry.
pub proof fn metadata_says_nothing_iff_all_maps_are_empty(m: RuntimeModuleMetadataV1)
    ensures
        empty_metadata(m) <==> {
            &&& forall|k: u64| !(#[trigger] m.error_map@.contains_key(k))
            &&& forall|k: String| !(#[trigger] m.struct_attributes@.contains_key(k))
            &&& forall|k: String| !(#[trigger] m.fun_attributes@.contains_key(k))
        },
{
    if forall|k: u64| !(#[trigger] m.error_map@.contains_key(k)) {
        assert(m.error_map@.dom() =~= Set::empty());
    }
    if forall|k: String| !(#[trigger] m.struct_attributes@.contains_key(k)) {
        assert(m.struct_attributes@.dom() =~= Set::empty());
    }
    if forall|k: String| !(#[trigger] m.fun_attributes@.contains_key(k)) {
        assert(m.fun_attributes@.dom() =~= Set::empty());
    }
}

/// Whether one of the three maps of some metadata has an entry.
pub open spec fn has_some_entry(m: RuntimeModuleMetadataV1) -> bool {
    ||| exists|k: u64| #[trigger] m.error_map@.contains_key(k)
    ||| exists|k: String| #[trigger] m.struct_attributes@.contains_key(k)
    ||| exists|k: String| #[trigger] m.fun_attributes@.contains_key(k)
}

/// A module whose metadata has an entry in any of the three maps gets exactly one entry more, at
/// the end. In the newer form, which is used without a bytecode version and from the first version
/// that has it on, that is all three maps under the newer key; in the older form it is the error
/// map under the older key. Where the maps cannot be written, that is the error.
pub proof fn metadata_with_an_entry_is_injected(
    metadatas: Map<ModuleIdView, RuntimeModuleMetadataV1>,
    module: CompiledModuleView,
    bytecode_version: Option<u32>,
    format: MetadataFormat,
)
    requires
        metadatas.contains_key(module.id),
        has_some_entry(metadatas[module.id]),
    ensures
        ({
            let m = metadatas[module.id];
            let newer = bytecode_version is None || bytecode_version->0 >= format.v1_min_version;
            let bytes = if newer {
                bcs_metadata(
                    m.error_map.deep_view(),
                    m.struct_attributes.deep_view(),
                    m.fun_attributes.deep_view(),
                )
            } else {
                bcs_error_map(m.error_map.deep_view())
            };
            let injected = injected_entry(metadatas, module.id, bytecode_version, format);
            let after = with_entry(module, injected->Ok_0);
            &&& bytes is None ==> injected == Err::<Option<MetadataView>, MetadataError>(
                MetadataError::Unserializable,
            )
            &&& bytes is Some ==> {
                &&& injected is Ok
                &&& after.metadata.len() == module.metadata.len() + 1
                &&& after.metadata.last().value == bytes->0
                &&& newer ==> after.metadata.last().key == format.key_v1@
                &&& !newer ==> after.metadata.last().key == format.key_v0@
                &&& after.metadata.drop_last() == module.metadata
                &&& after.id == module.id
                &&& after.native_functions == module.native_functions
                &&& after.native_structs == module.native_structs
            }
        }),
{
    metadata_says_nothing_iff_all_maps_are_empty(metadatas[module.id]);
    let injected = injected_entry(metadatas, module.id, bytecode_version, format);
    let after = with_entry(module, injected->Ok_0);
    if injected is Ok {
        assert(after.metadata.drop_last() =~= module.metadata);
    }
}

/// A module without a record, or with one whose three maps are all empty, stays as it is.
pub proof fn module_without_metadata_stays(
    metadatas: Map<ModuleIdView, RuntimeModuleMetadataV1>,
    module: CompiledModuleView,
    bytecode_version: Option<u32>,
    format: MetadataFormat,
)
    requires
        !metadatas.contains_key(module.id) || !has_some_entry(metadatas[module.id]),
    ensures
        injected_entry(metadatas, module.id, bytecode_version, format) is Ok,
        with_entry(
            module,
            injected_entry(metadatas, module.id, bytecode_version, format)->Ok_0,
        ) == module,
{
    metadata_says_nothing_iff_all_maps_are_empty(metadatas[module.id]);
}

/// The newer form is used without a bytecode version, and from the first version that has it on.
pub proof fn newer_form_is_the_default(bytecode_version: Option<u32>, format: MetadataFormat)
    ensures
        newer_form(None, format),
        bytecode_version matches Some(v) ==> (newer_form(bytecode_version, format) <==> v
            >= format.v1_min_version),
{
}

/// The entry for some bytes holds them, under the key of the form; without bytes there is an error.
pub proof fn entry_holds_the_bytes(newer: bool, bytes: Option<Seq<u8>>, format: MetadataFormat)
    ensures
        bytes matches Some(b) ==> {
            &&& entry_of_bytes(newer, bytes, format) is Ok
            &&& entry_of_bytes(newer, bytes, format)->Ok_0.value == b
            &&& newer ==> entry_of_bytes(newer, bytes, format)->Ok_0.key == format.key_v1@
            &&& !newer ==> entry_of_bytes(newer, bytes, format)->Ok_0.key == format.key_v0@
        },
        bytes is None ==> entry_of_bytes(newer, bytes, format) is Err,
{
}

/// The entry for metadata holds all three maps in the newer form and the error map in the older.
pub proof fn entry_holds_the_metadata(
    m: RuntimeModuleMetadataV1,
    bytecode_version: Option<u32>,
    format: MetadataFormat,
)
    ensures
        ({
            let newer = bytecode_version is None || bytecode_version->0 >= format.v1_min_version;
            let bytes = if newer {
                bcs_metadata(
                    m.error_map.deep_view(),
                    m.struct_attributes.deep_view(),
                    m.fun_attributes.deep_view(),
                )
            } else {
                bcs_error_map(m.error_map.deep_view())
            };
            let entry = metadata_entry(m, bytecode_version, format);
            &&& entry is Ok <==> bytes is Some
            &&& bytes is Some ==> entry->Ok_0.value == bytes->0
            &&& bytes is Some && newer ==> entry->Ok_0.key == format.key_v1@
            &&& bytes is Some && !newer ==> entry->Ok_0.key == format.key_v0@
        }),
{
}

/// A module stands for its id, its flags and its entries, entry by entry.
pub proof fn module_view_is_faithful(module: CompiledModule)
    ensures
        module@.id == module.id@,
        module@.native_functions == module.native_functions@,
        module@.native_structs == module.native_structs@,
        module@.metadata.len() == module.metadata@.len(),
        forall|i: int|
            #![trigger module.metadata@[i]]
            0 <= i < module.metadata@.len() ==> module@.metadata[i].key == module.metadata@[i].key@
                && module@.metadata[i].value == module.metadata@[i].value@,
{
}

} // verus!

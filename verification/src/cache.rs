//! A network's state, read through a cache of files.
//!
//! A cache entry says whether a key has a value, and holds the value's own bytes. What a value's
//! bytes are is not fixed here: a read asks for a value to be encoded or decoded where it needs it,
//! as it asks for a file or for the network.
use crate::text::{lower_hex, lower_hex_injective, lower_hex_text, texts, texts_push};
use vstd::prelude::*;

verus! {

/// What can be wrong with the bytes of a cache entry.
#[derive(Clone, Copy, PartialEq, Eq, Debug, Structural)]
pub enum EntryError {
    /// There are no bytes.
    Eof,
    /// The first byte tells neither an absent nor a present value.
    ExpectedOption,
    /// Something follows an absent value.
    RemainingInput,
}

/// The bytes of a cache entry: a zero for an absent value, a one and the value for a present one.
pub open spec fn entry_bytes(value: Option<Seq<u8>>) -> Seq<u8> {
    match value {
        None => seq![0u8],
        Some(v) => seq![1u8] + v,
    }
}

/// What the bytes of a cache entry say: no value, or the bytes of a value, not decoded.
pub open spec fn entry_value(bytes: Seq<u8>) -> Result<Option<Seq<u8>>, EntryError> {
    if bytes.len() == 0 {
        Err(EntryError::Eof)
    } else if bytes[0] == 0 {
        if bytes.len() == 1 {
            Ok(None)
        } else {
            Err(EntryError::RemainingInput)
        }
    } else if bytes[0] == 1 {
        Ok(Some(bytes.skip(1)))
    } else {
        Err(EntryError::ExpectedOption)
    }
}

/// The bytes of a value, where there are any.
pub open spec fn value_view(value: Option<Vec<u8>>) -> Option<Seq<u8>> {
    match value {
        Some(v) => Some(v@),
        None => None,
    }
}

/// Writes a cache entry, given the bytes of the value.
pub fn encode_entry(value: &Option<Vec<u8>>) -> (r: Vec<u8>)
    ensures
        r@ == entry_bytes(value_view(*value)),
{
    let mut bytes: Vec<u8> = Vec::new();
    match value {
        None => {
            bytes.push(0);
        },
        Some(v) => {
            bytes.push(1);
            let mut rest: Vec<u8> = v.clone();
            bytes.append(&mut rest);
        },
    }
    assert(bytes@ =~= entry_bytes(value_view(*value)));
    bytes
}

/// Reads a cache entry as far as the bytes of the value, which are handed on undecoded.
pub fn decode_entry(bytes: &Vec<u8>) -> (r: Result<Option<Vec<u8>>, EntryError>)
    ensures
        match r {
            Ok(value) => entry_value(bytes@) == Ok::<Option<Seq<u8>>, EntryError>(
                value_view(value),
            ),
            Err(e) => entry_value(bytes@) == Err::<Option<Seq<u8>>, EntryError>(e),
        },
{
    if bytes.len() == 0 {
        Err(EntryError::Eof)
    } else if bytes[0] == 0 {
        if bytes.len() == 1 {
            Ok(None)
        } else {
            Err(EntryError::RemainingInput)
        }
    } else if bytes[0] == 1 {
        let mut value: Vec<u8> = Vec::new();
        let mut i: usize = 1;
        while i < bytes.len()
            invariant
                1 <= i <= bytes@.len(),
                value@ =~= bytes@.subrange(1, i as int),
            decreases bytes.len() - i,
        {
            value.push(bytes[i]);
            i += 1;
        }
        assert(value@ =~= bytes@.skip(1));
        Ok(Some(value))
    } else {
        Err(EntryError::ExpectedOption)
    }
}

/// The name of the file that caches the value of a key with this hash.
pub open spec fn entry_file_name(key_hash: Seq<u8>) -> Seq<char> {
    lower_hex(key_hash) + ".bcs"@
}

/// The parts of the path of that file.
pub open spec fn entry_path(base_dir: Seq<Seq<char>>, key_hash: Seq<u8>) -> Seq<Seq<char>> {
    base_dir.push(entry_file_name(key_hash))
}

/// A directory that holds one file for each cached key.
#[derive(Debug)]
pub struct LocalFileCache {
    pub base_dir: Vec<String>,
}

/// A file to write: the parts of its path, and its contents.
#[derive(Debug)]
pub struct FileWrite {
    pub path: Vec<String>,
    pub bytes: Vec<u8>,
}

/// What came of looking for a file and reading it.
#[derive(Debug)]
pub enum FileReply {
    Absent,
    Contents(Vec<u8>),
    Failed(String),
}

/// What a [`FileReply`] stands for.
pub enum FileReplyView {
    Absent,
    Contents(Seq<u8>),
    Failed(Seq<char>),
}

impl View for FileReply {
    type V = FileReplyView;

    open spec fn view(&self) -> FileReplyView {
        match *self {
            FileReply::Absent => FileReplyView::Absent,
            FileReply::Contents(bytes) => FileReplyView::Contents(bytes@),
            FileReply::Failed(message) => FileReplyView::Failed(message@),
        }
    }
}

/// Why a value could not be read: its cache entry is malformed, the value could not be decoded or
/// encoded, a file could not be read or written, or the network did not answer.
#[derive(Debug)]
pub enum ReadError<D, E> {
    Entry(EntryError),
    Codec(D),
    Io(String),
    Remote(E),
}

/// What a [`ReadError`] stands for.
pub enum ReadErrorView<D, E> {
    Entry(EntryError),
    Codec(D),
    Io(Seq<char>),
    Remote(E),
}

impl<D, E> View for ReadError<D, E> {
    type V = ReadErrorView<D, E>;

    open spec fn view(&self) -> ReadErrorView<D, E> {
        match *self {
            ReadError::Entry(e) => ReadErrorView::Entry(e),
            ReadError::Codec(e) => ReadErrorView::Codec(e),
            ReadError::Io(message) => ReadErrorView::Io(message@),
            ReadError::Remote(e) => ReadErrorView::Remote(e),
        }
    }
}

/// A result with its error taken by its view.
pub open spec fn result_view<T, D, E>(r: Result<T, ReadError<D, E>>) -> Result<
    T,
    ReadErrorView<D, E>,
> {
    match r {
        Ok(t) => Ok(t),
        Err(e) => Err(e@),
    }
}

/// What the cache does to find a value: have the bytes of the value decoded, or answer.
#[derive(Debug)]
pub enum CacheStep<V, D, E> {
    Decode(Vec<u8>),
    Done(Result<Option<Option<V>>, ReadError<D, E>>),
}

/// What a [`CacheStep`] stands for.
pub enum CacheStepView<V, D, E> {
    Decode(Seq<u8>),
    Done(Result<Option<Option<V>>, ReadErrorView<D, E>>),
}

impl<V, D, E> View for CacheStep<V, D, E> {
    type V = CacheStepView<V, D, E>;

    open spec fn view(&self) -> CacheStepView<V, D, E> {
        match *self {
            CacheStep::Decode(bytes) => CacheStepView::Decode(bytes@),
            CacheStep::Done(r) => CacheStepView::Done(result_view(r)),
        }
    }
}

/// The step of the cache after reading the file: no answer comes from the bytes of a value before
/// they are decoded.
pub open spec fn cache_step<V, D, E>(reply: FileReplyView) -> CacheStepView<V, D, E> {
    match reply {
        FileReplyView::Absent => CacheStepView::Done(Ok(None)),
        FileReplyView::Failed(message) => CacheStepView::Done(Err(ReadErrorView::Io(message))),
        FileReplyView::Contents(bytes) => match entry_value(bytes) {
            Ok(None) => CacheStepView::Done(Ok(Some(None))),
            Ok(Some(value)) => CacheStepView::Decode(value),
            Err(e) => CacheStepView::Done(Err(ReadErrorView::Entry(e))),
        },
    }
}

/// What the cache answers once the bytes of a value were decoded, or could not be.
pub open spec fn decoded_value<V, D, E>(decoded: Result<V, D>) -> Result<
    Option<Option<V>>,
    ReadErrorView<D, E>,
> {
    match decoded {
        Ok(value) => Ok(Some(Some(value))),
        Err(e) => Err(ReadErrorView::Codec(e)),
    }
}

/// What an entry holds, where `decode` is what decoding makes of the bytes of a value.
pub open spec fn entry_decoded<V, D, E>(
    bytes: Seq<u8>,
    decode: spec_fn(Seq<u8>) -> Result<V, D>,
) -> Result<Option<V>, ReadErrorView<D, E>> {
    match entry_value(bytes) {
        Ok(None) => Ok(None),
        Ok(Some(value)) => match decode(value) {
            Ok(v) => Ok(Some(v)),
            Err(e) => Err(ReadErrorView::Codec(e)),
        },
        Err(e) => Err(ReadErrorView::Entry(e)),
    }
}

/// What the cache holds: nothing where there is no file, else what the file's entry holds.
pub open spec fn cached_value<V, D, E>(
    reply: FileReplyView,
    decode: spec_fn(Seq<u8>) -> Result<V, D>,
) -> Result<Option<Option<V>>, ReadErrorView<D, E>> {
    match reply {
        FileReplyView::Absent => Ok(None),
        FileReplyView::Failed(message) => Err(ReadErrorView::Io(message)),
        FileReplyView::Contents(bytes) => match entry_decoded(bytes, decode) {
            Ok(value) => Ok(Some(value)),
            Err(e) => Err(e),
        },
    }
}

impl LocalFileCache {
    /// The cache in a directory.
    pub fn new(base_dir: Vec<String>) -> (r: LocalFileCache)
        ensures
            r.base_dir == base_dir,
    {
        LocalFileCache { base_dir }
    }

    /// The path of the file for a key.
    pub fn file_path(&self, key_hash: &[u8]) -> (r: Vec<String>)
        ensures
            texts(r@) == entry_path(texts(self.base_dir@), key_hash@),
    {
        let mut path: Vec<String> = Vec::new();
        let mut i: usize = 0;
        while i < self.base_dir.len()
            invariant
                i <= self.base_dir@.len(),
                texts(path@) =~= texts(self.base_dir@).take(i as int),
            decreases self.base_dir.len() - i,
        {
            let part = self.base_dir[i].clone();
            proof {
                texts_push(path@, part);
                assert(texts(self.base_dir@)[i as int] == part@);
            }
            path.push(part);
            i += 1;
        }
        let mut name = lower_hex_text(key_hash);
        name.append(".bcs");
        proof {
            texts_push(path@, name);
            assert(texts(self.base_dir@).take(i as int) =~= texts(self.base_dir@));
        }
        path.push(name);
        assert(texts(path@) =~= entry_path(texts(self.base_dir@), key_hash@));
        path
    }

    /// The file to write so that the cache holds a value for a key, given what came of encoding
    /// the value.
    pub fn save<D, E>(&self, key_hash: &[u8], encoded: Result<Option<Vec<u8>>, D>) -> (r: Result<
        FileWrite,
        ReadError<D, E>,
    >)
        ensures
            match encoded {
                Ok(value) => r matches Ok(write) && texts(write.path@) == entry_path(
                    texts(self.base_dir@),
                    key_hash@,
                ) && write.bytes@ == entry_bytes(value_view(value)),
                Err(e) => r == Err::<FileWrite, ReadError<D, E>>(ReadError::Codec(e)),
            },
    {
        match encoded {
            Ok(value) => Ok(
                FileWrite { path: self.file_path(key_hash), bytes: encode_entry(&value) },
            ),
            Err(e) => Err(ReadError::Codec(e)),
        }
    }

    /// What the cache holds for a key, given what came of reading the key's file, or the bytes to
    /// decode first.
    pub fn get_state_value<V, D, E>(&self, reply: FileReply) -> (r: CacheStep<V, D, E>)
        ensures
            r@ == cache_step::<V, D, E>(reply@),
    {
        match reply {
            FileReply::Absent => CacheStep::Done(Ok(None)),
            FileReply::Failed(message) => CacheStep::Done(Err(ReadError::Io(message))),
            FileReply::Contents(bytes) => match decode_entry(&bytes) {
                Ok(None) => CacheStep::Done(Ok(Some(None))),
                Ok(Some(value)) => CacheStep::Decode(value),
                Err(e) => CacheStep::Done(Err(ReadError::Entry(e))),
            },
        }
    }

    /// What the cache holds for a key, given what came of decoding the bytes of its value.
    pub fn on_decode<V, D, E>(&self, decoded: Result<V, D>) -> (r: Result<
        Option<Option<V>>,
        ReadError<D, E>,
    >)
        ensures
            result_view(r) == decoded_value::<V, D, E>(decoded),
    {
        match decoded {
            Ok(value) => Ok(Some(Some(value))),
            Err(e) => Err(ReadError::Codec(e)),
        }
    }
}

/// What a read through the cache does next.
#[derive(Debug)]
pub enum ReadStep<V, D, E> {
    /// Have the bytes of a cached value decoded.
    Decode(Vec<u8>),
    /// Ask the network for the value.
    Fetch,
    /// Have the value encoded.
    Encode(V),
    /// Write the value to the cache.
    Save { write: FileWrite, value: Option<V> },
    /// Answer.
    Done(Result<Option<V>, ReadError<D, E>>),
}

/// What a [`ReadStep`] stands for.
pub enum ReadStepView<V, D, E> {
    Decode(Seq<u8>),
    Fetch,
    Encode(V),
    Save { path: Seq<Seq<char>>, bytes: Seq<u8>, value: Option<V> },
    Done(Result<Option<V>, ReadErrorView<D, E>>),
}

impl<V, D, E> View for ReadStep<V, D, E> {
    type V = ReadStepView<V, D, E>;

    open spec fn view(&self) -> ReadStepView<V, D, E> {
        match *self {
            ReadStep::Decode(bytes) => ReadStepView::Decode(bytes@),
            ReadStep::Fetch => ReadStepView::Fetch,
            ReadStep::Encode(value) => ReadStepView::Encode(value),
            ReadStep::Save { write, value } => ReadStepView::Save {
                path: texts(write.path@),
                bytes: write.bytes@,
                value,
            },
            ReadStep::Done(r) => ReadStepView::Done(result_view(r)),
        }
    }
}

/// The step after the cache has answered: the answer, or a question to the network.
pub open spec fn after_cache<V, D, E>(
    cached: Result<Option<Option<V>>, ReadErrorView<D, E>>,
) -> ReadStepView<V, D, E> {
    match cached {
        Ok(Some(value)) => ReadStepView::Done(Ok(value)),
        Ok(None) => ReadStepView::Fetch,
        Err(e) => ReadStepView::Done(Err(e)),
    }
}

/// The step after looking into the cache.
pub open spec fn after_lookup<V, D, E>(reply: FileReplyView) -> ReadStepView<V, D, E> {
    match cache_step::<V, D, E>(reply) {
        CacheStepView::Decode(bytes) => ReadStepView::Decode(bytes),
        CacheStepView::Done(cached) => after_cache(cached),
    }
}

/// The step after decoding a cached value: the answer.
pub open spec fn after_decode<V, D, E>(decoded: Result<V, D>) -> ReadStepView<V, D, E> {
    after_cache(decoded_value(decoded))
}

/// The step that writes the entry of a key.
pub open spec fn save_step<V, D, E>(
    base_dir: Seq<Seq<char>>,
    key_hash: Seq<u8>,
    bytes: Option<Seq<u8>>,
    value: Option<V>,
) -> ReadStepView<V, D, E> {
    ReadStepView::Save { path: entry_path(base_dir, key_hash), bytes: entry_bytes(bytes), value }
}

/// The step after the network's reply: what it said goes to the cache first, a value once it is
/// encoded.
pub open spec fn after_fetch<V, D, E>(
    base_dir: Seq<Seq<char>>,
    key_hash: Seq<u8>,
    reply: Result<Option<V>, E>,
) -> ReadStepView<V, D, E> {
    match reply {
        Ok(Some(value)) => ReadStepView::Encode(value),
        Ok(None) => save_step(base_dir, key_hash, None, None),
        Err(e) => ReadStepView::Done(Err(ReadErrorView::Remote(e))),
    }
}

/// The step after encoding a value.
pub open spec fn after_encode<V, D, E>(
    base_dir: Seq<Seq<char>>,
    key_hash: Seq<u8>,
    value: V,
    encoded: Result<Seq<u8>, D>,
) -> ReadStepView<V, D, E> {
    match encoded {
        Ok(bytes) => save_step(base_dir, key_hash, Some(bytes), Some(value)),
        Err(e) => ReadStepView::Done(Err(ReadErrorView::Codec(e))),
    }
}

/// The step after writing to the cache: the answer.
pub open spec fn after_save<V, D, E>(
    value: Option<V>,
    reply: Result<(), Seq<char>>,
) -> ReadStepView<V, D, E> {
    match reply {
        Ok(_) => ReadStepView::Done(Ok(value)),
        Err(message) => ReadStepView::Done(Err(ReadErrorView::Io(message))),
    }
}

/// The state of a network behind a cache.
#[derive(Debug)]
pub struct CachedRemoteStateView {
    pub cache: LocalFileCache,
}

fn on_cached<V, D, E>(cached: Result<Option<Option<V>>, ReadError<D, E>>) -> (r: ReadStep<V, D, E>)
    ensures
        r@ == after_cache::<V, D, E>(result_view(cached)),
{
    match cached {
        Ok(Some(value)) => ReadStep::Done(Ok(value)),
        Ok(None) => ReadStep::Fetch,
        Err(e) => ReadStep::Done(Err(e)),
    }
}

impl CachedRemoteStateView {
    /// What to do once the cache was looked into.
    pub fn on_lookup<V, D, E>(&self, reply: FileReply) -> (r: ReadStep<V, D, E>)
        ensures
            r@ == after_lookup::<V, D, E>(reply@),
    {
        match self.cache.get_state_value(reply) {
            CacheStep::Decode(bytes) => ReadStep::Decode(bytes),
            CacheStep::Done(cached) => on_cached(cached),
        }
    }

    /// What to do once a cached value was decoded, or could not be.
    pub fn on_decode<V, D, E>(&self, decoded: Result<V, D>) -> (r: ReadStep<V, D, E>)
        ensures
            r@ == after_decode::<V, D, E>(decoded),
    {
        on_cached(self.cache.on_decode(decoded))
    }

    /// What to do once the network has replied.
    pub fn on_fetch<V, D, E>(&self, key_hash: &[u8], reply: Result<Option<V>, E>) -> (r: ReadStep<
        V,
        D,
        E,
    >)
        ensures
            r@ == after_fetch::<V, D, E>(texts(self.cache.base_dir@), key_hash@, reply),
    {
        match reply {
            Ok(Some(value)) => ReadStep::Encode(value),
            Ok(None) => match self.cache.save(key_hash, Ok(None)) {
                Ok(write) => ReadStep::Save { write, value: None },
                Err(e) => ReadStep::Done(Err(e)),
            },
            Err(e) => ReadStep::Done(Err(ReadError::Remote(e))),
        }
    }

    /// What to do once a value was encoded, or could not be.
    pub fn on_encode<V, D, E>(&self, key_hash: &[u8], value: V, encoded: Result<Vec<u8>, D>) -> (r:
        ReadStep<V, D, E>)
        ensures
            r@ == after_encode::<V, D, E>(
                texts(self.cache.base_dir@),
                key_hash@,
                value,
                match encoded {
                    Ok(bytes) => Ok(bytes@),
                    Err(e) => Err(e),
                },
            ),
    {
        let encoded: Result<Option<Vec<u8>>, D> = match encoded {
            Ok(bytes) => Ok(Some(bytes)),
            Err(e) => Err(e),
        };
        match self.cache.save(key_hash, encoded) {
            Ok(write) => ReadStep::Save { write, value: Some(value) },
            Err(e) => ReadStep::Done(Err(e)),
        }
    }

    /// What to do once the value was written to the cache, or could not be.
    pub fn on_save<V, D, E>(&self, value: Option<V>, reply: Result<(), String>) -> (r: ReadStep<
        V,
        D,
        E,
    >)
        ensures
            r@ == after_save::<V, D, E>(
                value,
                match reply {
                    Ok(_) => Ok(()),
                    Err(message) => Err(message@),
                },
            ),
    {
        match reply {
            Ok(_) => ReadStep::Done(Ok(value)),
            Err(message) => ReadStep::Done(Err(ReadError::Io(message))),
        }
    }
}

/// What decoding makes of the bytes of a value, and encoding of a value.
#[verifier::reject_recursive_types(V)]
pub struct Codec<V, D> {
    pub decode: spec_fn(Seq<u8>) -> Result<V, D>,
    pub encode: spec_fn(V) -> Result<Seq<u8>, D>,
}

/// What a read meets with: what would come of reading a file that is there, of asking the network
/// and of writing a file, and what a failed write would leave in the file, if it left one.
pub struct Surroundings<V, E> {
    pub readable: Result<(), Seq<char>>,
    pub remote: Result<Option<V>, E>,
    pub written: Result<(), Seq<char>>,
    pub torn: Option<Seq<u8>>,
}

/// What a whole read comes to: the files afterwards, whether the network was asked, and the
/// answer.
pub struct ReadRun<V, D, E> {
    pub files: Map<Seq<Seq<char>>, Seq<u8>>,
    pub asked: bool,
    pub answer: Result<Option<V>, ReadErrorView<D, E>>,
}

/// What comes of looking for a file among the files there are.
pub open spec fn look_up(
    files: Map<Seq<Seq<char>>, Seq<u8>>,
    path: Seq<Seq<char>>,
    readable: Result<(), Seq<char>>,
) -> FileReplyView {
    if files.contains_key(path) {
        match readable {
            Ok(_) => FileReplyView::Contents(files[path]),
            Err(message) => FileReplyView::Failed(message),
        }
    } else {
        FileReplyView::Absent
    }
}

/// The end of a read that has asked the network: an entry to write and the answer, or the answer.
pub open spec fn finished<V, D, E>(
    step: ReadStepView<V, D, E>,
    files: Map<Seq<Seq<char>>, Seq<u8>>,
    world: Surroundings<V, E>,
) -> ReadRun<V, D, E> {
    match step {
        ReadStepView::Save { path, bytes, value } => ReadRun {
            files: if world.written is Ok {
                files.insert(path, bytes)
            } else if world.torn is Some {
                files.insert(path, world.torn->0)
            } else {
                files
            },
            asked: true,
            answer: after_save::<V, D, E>(value, world.written)->Done_0,
        },
        step => ReadRun { files, asked: true, answer: step->Done_0 },
    }
}

/// A whole read of a key, step by step, where `files` are the files there are.
pub open spec fn read_run<V, D, E>(
    base_dir: Seq<Seq<char>>,
    key_hash: Seq<u8>,
    files: Map<Seq<Seq<char>>, Seq<u8>>,
    world: Surroundings<V, E>,
    codec: Codec<V, D>,
) -> ReadRun<V, D, E> {
    let path = entry_path(base_dir, key_hash);
    match after_lookup::<V, D, E>(look_up(files, path, world.readable)) {
        ReadStepView::Done(answer) => ReadRun { files, asked: false, answer },
        ReadStepView::Decode(bytes) => ReadRun {
            files,
            asked: false,
            answer: after_decode::<V, D, E>((codec.decode)(bytes))->Done_0,
        },
        _ => match after_fetch::<V, D, E>(base_dir, key_hash, world.remote) {
            ReadStepView::Encode(value) => finished(
                after_encode(base_dir, key_hash, value, (codec.encode)(value)),
                files,
                world,
            ),
            step => finished(step, files, world),
        },
    }
}

/// What encoding makes of an optional value.
pub open spec fn encoded_value<V, D>(value: Option<V>, codec: Codec<V, D>) -> Result<
    Option<Seq<u8>>,
    D,
> {
    match value {
        None => Ok(None),
        Some(v) => match (codec.encode)(v) {
            Ok(bytes) => Ok(Some(bytes)),
            Err(e) => Err(e),
        },
    }
}

/// What becomes of an optional value that is encoded and decoded again.
pub open spec fn recoded<V, D, E>(value: Option<V>, codec: Codec<V, D>) -> Result<
    Option<V>,
    ReadErrorView<D, E>,
> {
    match value {
        None => Ok(None),
        Some(v) => match (codec.encode)(v) {
            Ok(bytes) => match (codec.decode)(bytes) {
                Ok(w) => Ok(Some(w)),
                Err(e) => Err(ReadErrorView::Codec(e)),
            },
            Err(e) => Err(ReadErrorView::Codec(e)),
        },
    }
}

/// Encoding and decoding give an optional value back.
pub open spec fn gives_back<V, D>(value: Option<V>, codec: Codec<V, D>) -> bool {
    value matches Some(v) ==> (codec.encode)(v) matches Ok(bytes) && (codec.decode)(bytes) == Ok::<
        V,
        D,
    >(v)
}

/// A read of an entry gives back what was written.
pub proof fn entry_round_trip(value: Option<Seq<u8>>)
    ensures
        entry_value(entry_bytes(value)) == Ok::<Option<Seq<u8>>, EntryError>(value),
{
    match value {
        None => {},
        Some(v) => {
            assert(entry_bytes(value).skip(1) =~= v);
        },
    }
}

/// A value has only one entry: whatever reads as the value is what is written for it.
pub proof fn entry_is_canonical(bytes: Seq<u8>)
    requires
        entry_value(bytes) is Ok,
    ensures
        entry_bytes(entry_value(bytes)->Ok_0) == bytes,
{
    assert(entry_bytes(entry_value(bytes)->Ok_0) =~= bytes);
}

/// Keys with different hashes have different files.
pub proof fn entry_paths_are_distinct(base_dir: Seq<Seq<char>>, a: Seq<u8>, b: Seq<u8>)
    requires
        entry_path(base_dir, a) == entry_path(base_dir, b),
    ensures
        a == b,
{
    let x = entry_file_name(a);
    let y = entry_file_name(b);
    assert(entry_path(base_dir, a).last() == x);
    assert(entry_path(base_dir, b).last() == y);
    let n = x.len() - ".bcs"@.len();
    assert(lower_hex(a) =~= x.take(n));
    assert(lower_hex(b) =~= y.take(n));
    lower_hex_injective(a, b);
}

/// The cache answers what the file's entry holds, whatever decoding makes of the bytes of a value.
/// Bytes that cannot be decoded are an error.
pub proof fn cache_answers_the_decoded_entry<V, D, E>(
    reply: FileReplyView,
    decode: spec_fn(Seq<u8>) -> Result<V, D>,
)
    ensures
        cached_value::<V, D, E>(reply, decode) == match cache_step::<V, D, E>(reply) {
            CacheStepView::Decode(bytes) => decoded_value(decode(bytes)),
            CacheStepView::Done(answer) => answer,
        },
{
}

/// The cache entry of a value holds what the value becomes by encoding and decoding it.
pub proof fn decoded_round_trip<V, D, E>(value: Option<V>, codec: Codec<V, D>)
    requires
        encoded_value(value, codec) is Ok,
    ensures
        entry_decoded::<V, D, E>(entry_bytes(encoded_value(value, codec)->Ok_0), codec.decode)
            == recoded::<V, D, E>(value, codec),
        gives_back(value, codec) ==> recoded::<V, D, E>(value, codec) == Ok::<
            Option<V>,
            ReadErrorView<D, E>,
        >(value),
{
    entry_round_trip(encoded_value(value, codec)->Ok_0);
}

/// What a file that is there and can be read holds is answered, a value as well as an error,
/// without asking the network, and nothing is written.
pub proof fn hit_does_not_ask<V, D, E>(
    base_dir: Seq<Seq<char>>,
    key_hash: Seq<u8>,
    files: Map<Seq<Seq<char>>, Seq<u8>>,
    world: Surroundings<V, E>,
    codec: Codec<V, D>,
)
    requires
        files.contains_key(entry_path(base_dir, key_hash)),
        world.readable is Ok,
    ensures
        read_run(base_dir, key_hash, files, world, codec) == (ReadRun::<V, D, E> {
            files,
            asked: false,
            answer: entry_decoded(files[entry_path(base_dir, key_hash)], codec.decode),
        }),
{
}

/// A key that is not cached is asked of the network, and the reply is cached and answered.
pub proof fn miss_asks_and_caches<V, D, E>(
    base_dir: Seq<Seq<char>>,
    key_hash: Seq<u8>,
    files: Map<Seq<Seq<char>>, Seq<u8>>,
    world: Surroundings<V, E>,
    codec: Codec<V, D>,
)
    requires
        !files.contains_key(entry_path(base_dir, key_hash)),
        world.remote is Ok,
        encoded_value(world.remote->Ok_0, codec) is Ok,
        world.written is Ok,
    ensures
        read_run(base_dir, key_hash, files, world, codec) == (ReadRun::<V, D, E> {
            files: files.insert(
                entry_path(base_dir, key_hash),
                entry_bytes(encoded_value(world.remote->Ok_0, codec)->Ok_0),
            ),
            asked: true,
            answer: Ok(world.remote->Ok_0),
        }),
{
}

/// A read leaves every file alone but that of its own key, and that one too where it is there.
pub proof fn read_leaves_other_files_alone<V, D, E>(
    base_dir: Seq<Seq<char>>,
    key_hash: Seq<u8>,
    path: Seq<Seq<char>>,
    files: Map<Seq<Seq<char>>, Seq<u8>>,
    world: Surroundings<V, E>,
    codec: Codec<V, D>,
)
    requires
        path != entry_path(base_dir, key_hash) || files.contains_key(path),
    ensures
        ({
            let after = read_run(base_dir, key_hash, files, world, codec).files;
            &&& after.contains_key(path) == files.contains_key(path)
            &&& files.contains_key(path) ==> after[path] == files[path]
        }),
{
}

/// A read of one key leaves the entries of all others alone.
pub proof fn read_leaves_other_keys_alone<V, D, E>(
    base_dir: Seq<Seq<char>>,
    key_hash: Seq<u8>,
    other: Seq<u8>,
    files: Map<Seq<Seq<char>>, Seq<u8>>,
    world: Surroundings<V, E>,
    codec: Codec<V, D>,
)
    requires
        key_hash != other,
    ensures
        ({
            let after = read_run(base_dir, key_hash, files, world, codec).files;
            let path = entry_path(base_dir, other);
            &&& after.contains_key(path) == files.contains_key(path)
            &&& files.contains_key(path) ==> after[path] == files[path]
        }),
{
    if entry_path(base_dir, key_hash) == entry_path(base_dir, other) {
        entry_paths_are_distinct(base_dir, key_hash, other);
    }
    read_leaves_other_files_alone(
        base_dir,
        key_hash,
        entry_path(base_dir, other),
        files,
        world,
        codec,
    );
}

/// A read through a cache directory: of which key, and what it meets with.
pub struct Read<V, E> {
    pub key_hash: Seq<u8>,
    pub world: Surroundings<V, E>,
}

/// The files after some reads through one cache directory, by whichever views.
pub open spec fn files_after<V, D, E>(
    base_dir: Seq<Seq<char>>,
    files: Map<Seq<Seq<char>>, Seq<u8>>,
    reads: Seq<Read<V, E>>,
    codec: Codec<V, D>,
) -> Map<Seq<Seq<char>>, Seq<u8>>
    decreases reads.len(),
{
    if reads.len() == 0 {
        files
    } else {
        let before = files_after(base_dir, files, reads.drop_last(), codec);
        read_run::<V, D, E>(
            base_dir,
            reads.last().key_hash,
            before,
            reads.last().world,
            codec,
        ).files
    }
}

/// What one of several reads comes to.
pub open spec fn nth_run<V, D, E>(
    base_dir: Seq<Seq<char>>,
    files: Map<Seq<Seq<char>>, Seq<u8>>,
    reads: Seq<Read<V, E>>,
    codec: Codec<V, D>,
    n: int,
) -> ReadRun<V, D, E> {
    read_run(
        base_dir,
        reads[n].key_hash,
        files_after(base_dir, files, reads.take(n), codec),
        reads[n].world,
        codec,
    )
}

/// A file that is there after some of the reads is there after more of them, and unchanged.
proof fn files_stay<V, D, E>(
    base_dir: Seq<Seq<char>>,
    files: Map<Seq<Seq<char>>, Seq<u8>>,
    reads: Seq<Read<V, E>>,
    codec: Codec<V, D>,
    path: Seq<Seq<char>>,
    m: int,
    n: int,
)
    requires
        0 <= m <= n <= reads.len(),
        files_after(base_dir, files, reads.take(m), codec).contains_key(path),
    ensures
        files_after(base_dir, files, reads.take(n), codec).contains_key(path),
        files_after(base_dir, files, reads.take(n), codec)[path] == files_after(
            base_dir,
            files,
            reads.take(m),
            codec,
        )[path],
    decreases n - m,
{
    if m < n {
        files_stay(base_dir, files, reads, codec, path, m, n - 1);
        let t = reads.take(n);
        assert(t.drop_last() =~= reads.take(n - 1));
        read_leaves_other_files_alone(
            base_dir,
            t.last().key_hash,
            path,
            files_after(base_dir, files, reads.take(n - 1), codec),
            t.last().world,
            codec,
        );
    }
}

/// After a successful read the file is there. Where the network was asked, the file holds what
/// was encoded; else it holds what was answered.
proof fn success_leaves_the_file<V, D, E>(
    base_dir: Seq<Seq<char>>,
    files: Map<Seq<Seq<char>>, Seq<u8>>,
    reads: Seq<Read<V, E>>,
    codec: Codec<V, D>,
    i: int,
)
    requires
        0 <= i < reads.len(),
        nth_run(base_dir, files, reads, codec, i).answer is Ok,
    ensures
        ({
            let run = nth_run(base_dir, files, reads, codec, i);
            let after = files_after(base_dir, files, reads.take(i + 1), codec);
            let path = entry_path(base_dir, reads[i].key_hash);
            &&& after.contains_key(path)
            &&& entry_decoded::<V, D, E>(after[path], codec.decode) == if run.asked {
                recoded(run.answer->Ok_0, codec)
            } else {
                run.answer
            }
        }),
{
    let t = reads.take(i + 1);
    assert(t.drop_last() =~= reads.take(i));
    assert(t.last() == reads[i]);
    let before = files_after(base_dir, files, reads.take(i), codec);
    let world = reads[i].world;
    if before.contains_key(entry_path(base_dir, reads[i].key_hash)) {
        hit_does_not_ask(base_dir, reads[i].key_hash, before, world, codec);
    } else {
        miss_asks_and_caches(base_dir, reads[i].key_hash, before, world, codec);
        decoded_round_trip::<V, D, E>(world.remote->Ok_0, codec);
    }
}

/// Among any number of reads, of this key and of others, by one view or by several with the same
/// cache directory: once a read of a key has succeeded, no later read of the key asks the network.
/// So of all successful reads of a key at most one has asked.
pub proof fn success_is_asked_for_once<V, D, E>(
    base_dir: Seq<Seq<char>>,
    files: Map<Seq<Seq<char>>, Seq<u8>>,
    reads: Seq<Read<V, E>>,
    codec: Codec<V, D>,
    i: int,
    j: int,
)
    requires
        0 <= i < j < reads.len(),
        reads[i].key_hash == reads[j].key_hash,
        nth_run(base_dir, files, reads, codec, i).answer is Ok,
    ensures
        !nth_run(base_dir, files, reads, codec, j).asked,
{
    success_leaves_the_file(base_dir, files, reads, codec, i);
    let path = entry_path(base_dir, reads[i].key_hash);
    files_stay(base_dir, files, reads, codec, path, i + 1, j);
}

/// Among any number of reads, of this key and of others: a later read of the key that can read the
/// file gives the answer of the earlier, successful one, whatever the network would say by then.
/// Where the earlier one had asked the network, the value comes back encoded and decoded, which is
/// the same answer where encoding and decoding give the value back.
pub proof fn later_reads_repeat_the_answer<V, D, E>(
    base_dir: Seq<Seq<char>>,
    files: Map<Seq<Seq<char>>, Seq<u8>>,
    reads: Seq<Read<V, E>>,
    codec: Codec<V, D>,
    i: int,
    j: int,
)
    requires
        0 <= i < j < reads.len(),
        reads[i].key_hash == reads[j].key_hash,
        nth_run(base_dir, files, reads, codec, i).answer is Ok,
        reads[j].world.readable is Ok,
    ensures
        ({
            let first = nth_run(base_dir, files, reads, codec, i);
            let later = nth_run(base_dir, files, reads, codec, j);
            &&& !later.asked
            &&& !first.asked ==> later.answer == first.answer
            &&& first.asked ==> later.answer == recoded::<V, D, E>(first.answer->Ok_0, codec)
            &&& gives_back(first.answer->Ok_0, codec) ==> later.answer == first.answer
            &&& first.answer->Ok_0 is None ==> later.answer == first.answer
        }),
{
    success_leaves_the_file(base_dir, files, reads, codec, i);
    let path = entry_path(base_dir, reads[i].key_hash);
    files_stay(base_dir, files, reads, codec, path, i + 1, j);
    hit_does_not_ask(
        base_dir,
        reads[j].key_hash,
        files_after(base_dir, files, reads.take(j), codec),
        reads[j].world,
        codec,
    );
}

/// A file that is there but cannot be read ends a read with the error.
pub proof fn unreadable_file_ends_the_lookup<V, D, E>(message: Seq<char>)
    ensures
        after_lookup::<V, D, E>(FileReplyView::Failed(message)) == ReadStepView::<V, D, E>::Done(
            Err(ReadErrorView::Io(message)),
        ),
{
}

/// What goes wrong is answered: a file that cannot be read, a malformed entry and a cached value
/// that cannot be decoded without asking the network; a refusal of the network and a value that
/// cannot be encoded without writing anything; and a failed write though the value is known.
pub proof fn errors_are_answered<V, D, E>(
    base_dir: Seq<Seq<char>>,
    key_hash: Seq<u8>,
    files: Map<Seq<Seq<char>>, Seq<u8>>,
    world: Surroundings<V, E>,
    codec: Codec<V, D>,
)
    ensures
        ({
            let path = entry_path(base_dir, key_hash);
            let run = read_run(base_dir, key_hash, files, world, codec);
            let unasked = |e: ReadErrorView<D, E>|
                ReadRun::<V, D, E> { files, asked: false, answer: Err(e) };
            let unwritten = |e: ReadErrorView<D, E>|
                ReadRun::<V, D, E> { files, asked: true, answer: Err(e) };
            &&& files.contains_key(path) ==> (world.readable matches Err(message) ==> run
                == unasked(ReadErrorView::Io(message)))
            &&& files.contains_key(path) && world.readable is Ok ==> (entry_value(
                files[path],
            ) matches Err(e) ==> run == unasked(ReadErrorView::Entry(e)))
            &&& files.contains_key(path) && world.readable is Ok ==> (entry_value(
                files[path],
            ) matches Ok(Some(bytes)) ==> ((codec.decode)(bytes) matches Err(e) ==> run == unasked(
                ReadErrorView::Codec(e),
            )))
            &&& !files.contains_key(path) ==> (world.remote matches Err(e) ==> run == unwritten(
                ReadErrorView::Remote(e),
            ))
            &&& !files.contains_key(path) ==> (world.remote matches Ok(Some(v)) ==> ((codec.encode)(
                v,
            ) matches Err(e) ==> run == unwritten(ReadErrorView::Codec(e))))
            &&& !files.contains_key(path) && world.remote is Ok && encoded_value(
                world.remote->Ok_0,
                codec,
            ) is Ok ==> (world.written matches Err(message) ==> run.asked && run.answer == Err::<
                Option<V>,
                ReadErrorView<D, E>,
            >(ReadErrorView::Io(message)))
        }),
{
}

} // verus!

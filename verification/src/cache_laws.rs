//! What a cache entry and the steps of a read are, said of the bytes and the replies themselves.
use crate::cache::{
    after_decode, after_encode, after_fetch, after_lookup, after_save, cache_step, decoded_value,
    entry_bytes, entry_decoded, entry_file_name, entry_path, entry_value, look_up, result_view,
    value_view, CacheStep, CacheStepView, Codec, EntryError, FileReply, FileReplyView, ReadError,
    ReadErrorView, ReadStep, ReadStepView,
};
use crate::text::{lower_hex, texts};
use vstd::prelude::*;

verus! {

/// An entry without a value is a single zero; one with a value is a one and then the value's bytes,
/// all of them and in their order.
pub proof fn entry_is_a_tag_and_the_value(value: Option<Seq<u8>>)
    ensures
        value is None ==> entry_bytes(value).len() == 1 && entry_bytes(value)[0] == 0,
        value matches Some(v) ==> {
            &&& entry_bytes(value).len() == v.len() + 1
            &&& entry_bytes(value)[0] == 1
            &&& forall|i: int| 0 <= i < v.len() ==> entry_bytes(value)[i + 1] == #[trigger] v[i]
        },
{
}

/// Bytes are an entry without a value only as a single zero, and one with a value exactly when they
/// start with a one; the value's bytes are all that follow. Anything else is an error: no bytes, a
/// zero with something behind it, another first byte.
pub proof fn entry_is_read_by_its_tag(bytes: Seq<u8>)
    ensures
        entry_value(bytes) == Ok::<Option<Seq<u8>>, EntryError>(None) <==> bytes.len() == 1
            && bytes[0] == 0,
        entry_value(bytes) is Ok && entry_value(bytes)->Ok_0 is Some <==> bytes.len() > 0
            && bytes[0] == 1,
        entry_value(bytes) matches Ok(Some(v)) ==> {
            &&& v.len() == bytes.len() - 1
            &&& forall|i: int| 0 <= i < v.len() ==> #[trigger] v[i] == bytes[i + 1]
        },
        entry_value(bytes) == Err::<Option<Seq<u8>>, EntryError>(EntryError::Eof) <==> bytes.len()
            == 0,
        entry_value(bytes) == Err::<Option<Seq<u8>>, EntryError>(EntryError::RemainingInput)
            <==> bytes.len() > 1 && bytes[0] == 0,
        entry_value(bytes) == Err::<Option<Seq<u8>>, EntryError>(EntryError::ExpectedOption)
            <==> bytes.len() > 0 && bytes[0] > 1,
{
}

/// The file of a key stands right in the directory, under the key's hash in hexadecimal.
pub proof fn entry_file_is_in_the_directory(base_dir: Seq<Seq<char>>, key_hash: Seq<u8>)
    ensures
        entry_path(base_dir, key_hash).len() == base_dir.len() + 1,
        entry_path(base_dir, key_hash).drop_last() == base_dir,
        entry_path(base_dir, key_hash).last() == lower_hex(key_hash) + ".bcs"@,
        entry_file_name(key_hash) == lower_hex(key_hash) + ".bcs"@,
{
    assert(entry_path(base_dir, key_hash).drop_last() =~= base_dir);
}

/// The bytes of an optional value are those of the value.
pub proof fn value_view_is_faithful(value: Option<Vec<u8>>)
    ensures
        value is None ==> value_view(value) is None,
        value matches Some(v) ==> value_view(value) == Some(v@),
{
}

/// What an entry holds: no value for a single zero; for a one and more bytes what decoding makes of
/// those bytes, a value or an error; an error for all else.
pub proof fn entry_holds_what_is_decoded<V, D, E>(
    bytes: Seq<u8>,
    decode: spec_fn(Seq<u8>) -> Result<V, D>,
)
    ensures
        bytes.len() == 1 && bytes[0] == 0 ==> entry_decoded::<V, D, E>(bytes, decode) == Ok::<
            Option<V>,
            ReadErrorView<D, E>,
        >(None),
        bytes.len() > 0 && bytes[0] == 1 ==> match decode(bytes.skip(1)) {
            Ok(v) => entry_decoded::<V, D, E>(bytes, decode) == Ok::<Option<V>, ReadErrorView<D, E>>(
                Some(v),
            ),
            Err(e) => entry_decoded::<V, D, E>(bytes, decode) == Err::<
                Option<V>,
                ReadErrorView<D, E>,
            >(ReadErrorView::Codec(e)),
        },
        bytes.len() == 0 || bytes[0] > 1 || (bytes[0] == 0 && bytes.len() > 1) ==> entry_decoded::<
            V,
            D,
            E,
        >(bytes, decode) is Err,
{
}

/// A lookup asks the network exactly when there is no file. It answers that there is no value for a
/// single zero, has the bytes behind a one decoded, and ends with the error of a file that cannot
/// be read or of an entry that is none.
pub proof fn lookup_goes_by_the_file<V, D, E>(reply: FileReplyView)
    ensures
        ({
            let step = after_lookup::<V, D, E>(reply);
            &&& step is Fetch <==> reply is Absent
            &&& reply matches FileReplyView::Failed(m) ==> step == ReadStepView::<V, D, E>::Done(
                Err(ReadErrorView::Io(m)),
            )
            &&& reply matches FileReplyView::Contents(bytes) ==> {
                &&& bytes.len() == 1 && bytes[0] == 0 ==> step == ReadStepView::<V, D, E>::Done(
                    Ok(None),
                )
                &&& bytes.len() > 0 && bytes[0] == 1 ==> step == ReadStepView::<V, D, E>::Decode(
                    bytes.skip(1),
                )
                &&& bytes.len() == 0 ==> step == ReadStepView::<V, D, E>::Done(
                    Err(ReadErrorView::Entry(EntryError::Eof)),
                )
                &&& bytes.len() > 1 && bytes[0] == 0 ==> step == ReadStepView::<V, D, E>::Done(
                    Err(ReadErrorView::Entry(EntryError::RemainingInput)),
                )
                &&& bytes.len() > 0 && bytes[0] > 1 ==> step == ReadStepView::<V, D, E>::Done(
                    Err(ReadErrorView::Entry(EntryError::ExpectedOption)),
                )
            }
        }),
{
}

/// The cache itself says the same: nothing exactly where there is no file.
pub proof fn cache_goes_by_the_file<V, D, E>(reply: FileReplyView)
    ensures
        ({
            let step = cache_step::<V, D, E>(reply);
            &&& reply is Absent <==> step == CacheStepView::<V, D, E>::Done(Ok(None))
            &&& reply matches FileReplyView::Failed(m) ==> step == CacheStepView::<V, D, E>::Done(
                Err(ReadErrorView::Io(m)),
            )
            &&& reply matches FileReplyView::Contents(bytes) ==> {
                &&& bytes.len() == 1 && bytes[0] == 0 ==> step == CacheStepView::<V, D, E>::Done(
                    Ok(Some(None)),
                )
                &&& bytes.len() > 0 && bytes[0] == 1 ==> step == CacheStepView::<V, D, E>::Decode(
                    bytes.skip(1),
                )
                &&& bytes.len() == 0 || bytes[0] > 1 || (bytes[0] == 0 && bytes.len() > 1)
                    ==> step is Done && step->Done_0 is Err
            }
        }),
{
}

/// A decoded value is answered, and so is the error of one that cannot be decoded.
pub proof fn decoding_is_answered<V, D, E>(decoded: Result<V, D>)
    ensures
        decoded matches Ok(v) ==> after_decode::<V, D, E>(decoded) == ReadStepView::<V, D, E>::Done(
            Ok(Some(v)),
        ) && decoded_value::<V, D, E>(decoded) == Ok::<Option<Option<V>>, ReadErrorView<D, E>>(
            Some(Some(v)),
        ),
        decoded matches Err(e) ==> after_decode::<V, D, E>(decoded) == ReadStepView::<
            V,
            D,
            E,
        >::Done(Err(ReadErrorView::Codec(e))) && decoded_value::<V, D, E>(decoded) == Err::<
            Option<Option<V>>,
            ReadErrorView<D, E>,
        >(ReadErrorView::Codec(e)),
{
}

/// What the network says is kept: a value once it is encoded, that there is none at once. Its
/// refusal is answered.
pub proof fn reply_of_the_network_is_kept<V, D, E>(
    base_dir: Seq<Seq<char>>,
    key_hash: Seq<u8>,
    reply: Result<Option<V>, E>,
)
    ensures
        ({
            let step = after_fetch::<V, D, E>(base_dir, key_hash, reply);
            &&& reply matches Ok(Some(v)) ==> step == ReadStepView::<V, D, E>::Encode(v)
            &&& reply matches Ok(None) ==> step == (ReadStepView::<V, D, E>::Save {
                path: base_dir.push(lower_hex(key_hash) + ".bcs"@),
                bytes: seq![0u8],
                value: None,
            })
            &&& reply matches Err(e) ==> step == ReadStepView::<V, D, E>::Done(
                Err(ReadErrorView::Remote(e)),
            )
        }),
{
}

/// An encoded value is written behind a one to the key's file, and goes on as it is. The error of
/// one that cannot be encoded is answered.
pub proof fn encoded_value_is_kept<V, D, E>(
    base_dir: Seq<Seq<char>>,
    key_hash: Seq<u8>,
    value: V,
    encoded: Result<Seq<u8>, D>,
)
    ensures
        ({
            let step = after_encode::<V, D, E>(base_dir, key_hash, value, encoded);
            &&& encoded matches Ok(bytes) ==> step == (ReadStepView::<V, D, E>::Save {
                path: base_dir.push(lower_hex(key_hash) + ".bcs"@),
                bytes: seq![1u8] + bytes,
                value: Some(value),
            })
            &&& encoded matches Err(e) ==> step == ReadStepView::<V, D, E>::Done(
                Err(ReadErrorView::Codec(e)),
            )
        }),
{
}

/// Once the file is written the value is answered; a failed write is answered by its message.
pub proof fn write_is_answered<V, D, E>(value: Option<V>, reply: Result<(), Seq<char>>)
    ensures
        reply is Ok ==> after_save::<V, D, E>(value, reply) == ReadStepView::<V, D, E>::Done(
            Ok(value),
        ),
        reply matches Err(m) ==> after_save::<V, D, E>(value, reply) == ReadStepView::<
            V,
            D,
            E,
        >::Done(Err(ReadErrorView::Io(m))),
{
}

/// What comes of looking for a file: its contents, or the error of reading it, where it is there.
pub proof fn look_up_finds_the_file(
    files: Map<Seq<Seq<char>>, Seq<u8>>,
    path: Seq<Seq<char>>,
    readable: Result<(), Seq<char>>,
)
    ensures
        look_up(files, path, readable) is Absent <==> !files.contains_key(path),
        files.contains_key(path) && readable is Ok ==> look_up(files, path, readable)
            == FileReplyView::Contents(files[path]),
        files.contains_key(path) && readable is Err ==> look_up(files, path, readable)
            == FileReplyView::Failed(readable->Err_0),
{
}

/// A reply stands for its bytes or its message.
pub proof fn reply_view_is_faithful(reply: FileReply)
    ensures
        reply@ is Absent <==> reply is Absent,
        reply matches FileReply::Contents(bytes) ==> reply@ == FileReplyView::Contents(bytes@),
        reply matches FileReply::Failed(message) ==> reply@ == FileReplyView::Failed(message@),
{
}

/// An error stands for what it carries, and a result for its value or its error.
pub proof fn error_view_is_faithful<T, D, E>(error: ReadError<D, E>, r: Result<T, ReadError<D, E>>)
    ensures
        error matches ReadError::Entry(e) ==> error@ == ReadErrorView::<D, E>::Entry(e),
        error matches ReadError::Codec(e) ==> error@ == ReadErrorView::<D, E>::Codec(e),
        error matches ReadError::Io(m) ==> error@ == ReadErrorView::<D, E>::Io(m@),
        error matches ReadError::Remote(e) ==> error@ == ReadErrorView::<D, E>::Remote(e),
        r matches Ok(t) ==> result_view(r) == Ok::<T, ReadErrorView<D, E>>(t),
        r matches Err(e) ==> result_view(r) == Err::<T, ReadErrorView<D, E>>(e@),
{
}

/// A step stands for what it carries.
pub proof fn step_view_is_faithful<V, D, E>(step: ReadStep<V, D, E>, cached: CacheStep<V, D, E>)
    ensures
        step@ is Fetch <==> step is Fetch,
        step matches ReadStep::Decode(bytes) ==> step@ == ReadStepView::<V, D, E>::Decode(bytes@),
        step matches ReadStep::Encode(v) ==> step@ == ReadStepView::<V, D, E>::Encode(v),
        step matches ReadStep::Save { write, value } ==> step@ == (ReadStepView::<V, D, E>::Save {
            path: texts(write.path@),
            bytes: write.bytes@,
            value,
        }),
        step matches ReadStep::Done(r) ==> step@ is Done && (r is Ok <==> step@->Done_0 is Ok) && (
        r is Ok ==> step@->Done_0->Ok_0 == r->Ok_0) && (r is Err ==> step@->Done_0->Err_0
            == r->Err_0@),
        cached matches CacheStep::Decode(bytes) ==> cached@ == CacheStepView::<V, D, E>::Decode(
            bytes@,
        ),
        cached matches CacheStep::Done(r) ==> cached@ is Done && (r is Ok <==> cached@->Done_0
            is Ok) && (r is Ok ==> cached@->Done_0->Ok_0 == r->Ok_0) && (r is Err
            ==> cached@->Done_0->Err_0 == r->Err_0@),
{
}

/// A value that encoding and decoding give back comes back through an entry.
pub proof fn codec_that_gives_back_loses_nothing<V, D, E>(value: V, codec: Codec<V, D>)
    requires
        (codec.encode)(value) is Ok,
        (codec.decode)((codec.encode)(value)->Ok_0) == Ok::<V, D>(value),
    ensures
        entry_decoded::<V, D, E>(seq![1u8] + (codec.encode)(value)->Ok_0, codec.decode) == Ok::<
            Option<V>,
            ReadErrorView<D, E>,
        >(Some(value)),
{
    let bytes = (codec.encode)(value)->Ok_0;
    assert((seq![1u8] + bytes).skip(1) =~= bytes);
}

} // verus!

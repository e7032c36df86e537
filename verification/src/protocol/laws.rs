//! What holds of the single commands.

use crate::cache::value_object::FieldModel;
use crate::error::ErrorModel;
use crate::protocol::hvals;
use crate::protocol::lua_env;
use crate::protocol::select;
use crate::protocol::sentinels;
use crate::utils::text;
use crate::value::Reply;
use vstd::prelude::*;

verus! {

/// SELECT takes a verb and at most one argument, and without one it selects the first
/// database.
pub proof fn law_select_takes_one_argument(items: Seq<Reply>)
    ensures
        items.len() > 2 ==> select::selected(items) == Err::<u16, ErrorModel>(
            ErrorModel::WrongArgCount("select"@),
        ),
        items.len() < 2 ==> select::selected(items) == Ok::<u16, ErrorModel>(0),
{
}

/// SELECT by a number selects the database of that number, counted around the number of
/// databases that there can be.
pub proof fn law_select_by_number(verb: Reply, n: i64)
    ensures
        select::selected(seq![verb, Reply::Integer(n)]) is Ok,
        0 <= n < 65536 ==> select::selected(seq![verb, Reply::Integer(n)])->Ok_0 == n,
        select::selected(seq![verb, Reply::Integer(n)])->Ok_0 == n as int % 65536,
{
    assert(n as u16 == n % 65536) by (bit_vector);
}

/// SELECT by a text selects the database whose number the text writes, and nothing else
/// is taken for a number.
pub proof fn law_select_by_text(verb: Reply, word: Seq<char>)
    ensures
        ({
            let number = text::written_number(word, 65535);
            let found = select::selected(seq![verb, Reply::SimpleString(word)]);
            &&& number is Some ==> found is Ok && found->Ok_0 == number->0
            &&& number is None ==> found == Err::<u16, ErrorModel>(ErrorModel::SyntaxError)
        }),
{
}

/// SELECT by bytes selects the first database if they write a number, and is refused if
/// they do not.
pub proof fn law_select_by_bytes(verb: Reply, data: Seq<u8>)
    ensures
        ({
            let number = text::written_number(vstd::utf8::decode_utf8(data), 65535);
            let found = select::selected(seq![verb, Reply::BulkString(Some(data))]);
            &&& vstd::utf8::valid_utf8(data) && number is Some ==> found == Ok::<u16, ErrorModel>(0)
            &&& !vstd::utf8::valid_utf8(data) || number is None ==> found == Err::<u16, ErrorModel>(
                ErrorModel::WrongArgCount("select"@),
            )
        }),
{
}

/// SELECT by anything else is refused.
pub proof fn law_select_by_nothing_else(verb: Reply, other: Reply)
    requires
        !(other is Integer),
        !(other is SimpleString),
        other is BulkString ==> other->BulkString_0 is None,
    ensures
        select::selected(seq![verb, other]) == Err::<u16, ErrorModel>(ErrorModel::SyntaxError),
{
}

/// SENTINEL SENTINELS takes a name, as bytes or as text, and nothing more or less.
pub proof fn law_sentinels_takes_a_name(items: Seq<Reply>)
    ensures
        items.len() != 3 ==> sentinels::complaint(items) == Some(
            ErrorModel::WrongArgCount("SENTINEL SENTINELS"@),
        ),
        items.len() == 3 ==> (sentinels::complaint(items) is None <==> items[2] is SimpleString || (
        items[2] is BulkString && items[2]->BulkString_0 is Some)),
        items.len() == 3 && sentinels::complaint(items) is Some ==> sentinels::complaint(items)
            == Some(ErrorModel::InvalidArgument("master name"@)),
{
}

/// HVALS takes its first argument as the key, bytes as they are and text by its bytes;
/// anything else is refused, and further arguments are of no account.
pub proof fn law_hvals_takes_a_key(items: Seq<Reply>, data: Seq<u8>, word: Seq<char>)
    ensures
        items.len() < 2 ==> hvals::key_of(items) == Err::<Seq<u8>, ErrorModel>(
            ErrorModel::WrongArgCount("hvals"@),
        ),
        items.len() >= 2 && items[1] == Reply::BulkString(Some(data)) ==> hvals::key_of(items)
            == Ok::<Seq<u8>, ErrorModel>(data),
        items.len() >= 2 && items[1] == Reply::SimpleString(word) ==> hvals::key_of(items) == Ok::<
            Seq<u8>,
            ErrorModel,
        >(vstd::utf8::encode_utf8(word)),
        items.len() >= 2 && !(items[1] is SimpleString) && (items[1] is BulkString
            ==> items[1]->BulkString_0 is None) ==> hvals::key_of(items) == Err::<
            Seq<u8>,
            ErrorModel,
        >(ErrorModel::InvalidArgument("key"@)),
{
}

/// HVALS sends bytes as they are, and a number as decimal digits that read back as the
/// number.
pub proof fn law_hvals_sends_values(data: Seq<u8>, n: i64)
    ensures
        hvals::field_reply(FieldModel::Str(data)) == Reply::BulkString(Some(data)),
        ({
            let sent = hvals::field_reply(FieldModel::Int(n));
            let written = sent->BulkString_0->0;
            &&& sent is BulkString
            &&& sent->BulkString_0 is Some
            &&& n < 0 ==> written.len() > 0 && written[0] == 45 && text::number_written(
                written.skip(1),
            ) == -n
            &&& n >= 0 ==> text::number_written(written) == n
        }),
{
    text::law_decimals_read_back(n as int);
}

/// What scripts must not see is exactly what reaches outside the interpreter.
pub proof fn law_hidden_names(name: Seq<char>)
    ensures
        lua_env::hidden_names().contains(name) <==> name == "os"@ || name == "io"@ || name
            == "package"@ || name == "require"@ || name == "dofile"@ || name == "loadfile"@,
        lua_env::hidden_names().len() == 6,
{
    let names = lua_env::hidden_names();
    assert(names[0] == "os"@ && names[1] == "io"@ && names[2] == "package"@ && names[3]
        == "require"@ && names[4] == "dofile"@ && names[5] == "loadfile"@);
}

/// Texts keep their places.
pub proof fn law_texts_keep_their_places(list: Seq<String>, i: int)
    requires
        0 <= i < list.len(),
    ensures
        lua_env::texts(list).len() == list.len(),
        lua_env::texts(list)[i] == list[i]@,
{
}

} // verus!

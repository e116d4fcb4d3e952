use crate::tokens::{is_identifier, is_identifier_continue};
use vstd::prelude::*;

verus! {

/// The text that starts every link-time symbol and every emitted identifier.
pub const SWIFT_BRIDGE_PREFIX: &'static str = "__swift_bridge__";

/// The prefix as text.
pub open spec fn prefix_text() -> Seq<char> {
    "__swift_bridge__"@
}

/// The link-time symbol of a function: the prefix, `$`, the type and `$` where the function
/// belongs to a type, then the function's name.
pub open spec fn exported_symbol_text(
    associated_type: Option<Seq<char>>,
    fn_name: Seq<char>,
) -> Seq<char> {
    match associated_type {
        Some(ty) => prefix_text() + seq!['$'] + ty + seq!['$'] + fn_name,
        None => prefix_text() + seq!['$'] + fn_name,
    }
}

/// The identifier under which the emitted code knows a function: the prefix, the type and
/// `_` where the function belongs to a type, then the function's name.
pub open spec fn local_identifier_text(
    associated_type: Option<Seq<char>>,
    fn_name: Seq<char>,
) -> Seq<char> {
    match associated_type {
        Some(ty) => prefix_text() + ty + seq!['_'] + fn_name,
        None => prefix_text() + fn_name,
    }
}

/// The link-time symbol of the function that releases a value of the type.
pub open spec fn free_symbol_text(ty: Seq<char>) -> Seq<char> {
    prefix_text() + seq!['$'] + ty + "$_free"@
}

/// The identifier under which the emitted code knows that function.
pub open spec fn free_identifier_text(ty: Seq<char>) -> Seq<char> {
    prefix_text() + ty + "__free"@
}

/// The text of an optional string.
pub open spec fn option_text(text: Option<&str>) -> Option<Seq<char>> {
    match text {
        Some(s) => Some(s@),
        None => None,
    }
}

/// An identifier stays one when identifier characters are put after it.
pub proof fn lemma_identifier_extended(head: Seq<char>, tail: Seq<char>)
    requires
        is_identifier(head),
        forall|i: int| 0 <= i < tail.len() ==> is_identifier_continue(#[trigger] tail[i]),
        head.len() > 1 || tail.len() > 0,
    ensures
        is_identifier(head + tail),
{
    let whole = head + tail;
    assert forall|i: int| 0 <= i < whole.len() implies is_identifier_continue(
        #[trigger] whole[i],
    ) by {
        if i < head.len() {
            assert(whole[i] == head[i]);
        } else {
            assert(whole[i] == tail[i - head.len()]);
        }
    }
    assert(whole[0] == head[0]);
}

/// The prefix is an identifier of sixteen characters.
pub proof fn lemma_prefix_is_identifier()
    ensures
        is_identifier(prefix_text()),
        prefix_text().len() == 16,
{
    reveal_strlit("__swift_bridge__");
}

/// The identifiers of emitted functions are identifiers.
pub proof fn lemma_local_identifiers(associated_type: Option<Seq<char>>, fn_name: Seq<char>)
    requires
        is_identifier(fn_name),
        associated_type matches Some(ty) ==> is_identifier(ty),
    ensures
        is_identifier(local_identifier_text(associated_type, fn_name)),
{
    lemma_prefix_is_identifier();
    match associated_type {
        Some(ty) => {
            lemma_identifier_extended(prefix_text(), ty);
            lemma_identifier_extended(prefix_text() + ty, seq!['_']);
            lemma_identifier_extended(prefix_text() + ty + seq!['_'], fn_name);
        },
        None => {
            lemma_identifier_extended(prefix_text(), fn_name);
        },
    }
}

/// The identifiers of emitted release functions are identifiers.
pub proof fn lemma_free_identifier(ty: Seq<char>)
    requires
        is_identifier(ty),
    ensures
        is_identifier(free_identifier_text(ty)),
{
    lemma_prefix_is_identifier();
    reveal_strlit("__free");
    lemma_identifier_extended(prefix_text(), ty);
    lemma_identifier_extended(prefix_text() + ty, "__free"@);
}

/// Two types with one free symbol are one type.
pub proof fn lemma_free_symbol_injective(a: Seq<char>, b: Seq<char>)
    requires
        free_symbol_text(a) == free_symbol_text(b),
    ensures
        a == b,
{
    lemma_prefix_is_identifier();
    let x = free_symbol_text(a);
    let y = free_symbol_text(b);
    assert(x.len() == 17 + a.len() + "$_free"@.len());
    assert(y.len() == 17 + b.len() + "$_free"@.len());
    assert forall|i: int| 0 <= i < a.len() implies a[i] == b[i] by {
        assert(x[17 + i] == a[i]);
        assert(y[17 + i] == b[i]);
    }
    assert(a =~= b);
}

/// Two types with one free identifier are one type.
pub proof fn lemma_free_identifier_injective(a: Seq<char>, b: Seq<char>)
    requires
        free_identifier_text(a) == free_identifier_text(b),
    ensures
        a == b,
{
    lemma_prefix_is_identifier();
    let x = free_identifier_text(a);
    let y = free_identifier_text(b);
    assert(x.len() == 16 + a.len() + "__free"@.len());
    assert(y.len() == 16 + b.len() + "__free"@.len());
    assert forall|i: int| 0 <= i < a.len() implies a[i] == b[i] by {
        assert(x[16 + i] == a[i]);
        assert(y[16 + i] == b[i]);
    }
    assert(a =~= b);
}

/// The symbol of a function is the free symbol of no type, but for a function `_free`
/// of that very type.
pub proof fn lemma_function_symbol_is_no_free_symbol(
    associated_type: Option<Seq<char>>,
    fn_name: Seq<char>,
    ty: Seq<char>,
)
    requires
        is_identifier(fn_name),
        associated_type matches Some(owner) ==> is_identifier(owner),
        is_identifier(ty),
        !(associated_type == Some(ty) && fn_name == "_free"@),
    ensures
        exported_symbol_text(associated_type, fn_name) != free_symbol_text(ty),
{
    lemma_prefix_is_identifier();
    reveal_strlit("$_free");
    reveal_strlit("_free");
    let e = exported_symbol_text(associated_type, fn_name);
    let s = free_symbol_text(ty);
    if e == s {
        assert(s.len() == 17 + ty.len() + 6);
        assert(s[17 + ty.len() as int] == '$');
        match associated_type {
            None => {
                assert(e.len() == 17 + fn_name.len());
                assert(e[17 + ty.len() as int] == fn_name[ty.len() as int]);
                assert(is_identifier_continue(fn_name[ty.len() as int]));
            },
            Some(owner) => {
                assert(e.len() == 17 + owner.len() + 1 + fn_name.len());
                assert(e[17 + owner.len() as int] == '$');
                if owner.len() < ty.len() {
                    assert(s[17 + owner.len() as int] == ty[owner.len() as int]);
                    assert(is_identifier_continue(ty[owner.len() as int]));
                } else if owner.len() > ty.len() {
                    assert(e[17 + ty.len() as int] == owner[ty.len() as int]);
                    assert(is_identifier_continue(owner[ty.len() as int]));
                } else {
                    assert forall|i: int| 0 <= i < owner.len() implies owner[i] == ty[i] by {
                        assert(e[17 + i] == owner[i]);
                        assert(s[17 + i] == ty[i]);
                    }
                    assert(owner =~= ty);
                    assert forall|i: int| 0 <= i < fn_name.len() implies fn_name[i]
                        == "_free"@[i] by {
                        assert(e[17 + owner.len() + 1 + i] == fn_name[i]);
                        assert(s[17 + ty.len() + 1 + i] == "$_free"@[1 + i]);
                    }
                    assert(fn_name =~= "_free"@);
                }
            },
        }
    }
}

/// Symbols and emitted identifiers are long and start with the prefix, so with `_`.
pub proof fn lemma_names_start_with_prefix(
    associated_type: Option<Seq<char>>,
    fn_name: Seq<char>,
    ty: Seq<char>,
)
    ensures
        exported_symbol_text(associated_type, fn_name).len() >= 17,
        local_identifier_text(associated_type, fn_name).len() >= 16,
        local_identifier_text(associated_type, fn_name)[0] == '_',
        free_symbol_text(ty).len() >= 23,
        free_identifier_text(ty).len() >= 22,
        free_identifier_text(ty)[0] == '_',
{
    lemma_prefix_is_identifier();
    reveal_strlit("__swift_bridge__");
    reveal_strlit("$_free");
    reveal_strlit("__free");
}

/// The link-time symbol of a function.
pub fn exported_symbol(associated_type: Option<&str>, fn_name: &str) -> (symbol: String)
    ensures
        symbol@ == exported_symbol_text(option_text(associated_type), fn_name@),
{
    proof {
        reveal_strlit("$");
    }
    let mut symbol = String::from_str(SWIFT_BRIDGE_PREFIX);
    symbol.append("$");
    match associated_type {
        Some(ty) => {
            symbol.append(ty);
            symbol.append("$");
        },
        None => {},
    }
    symbol.append(fn_name);
    assert(symbol@ =~= exported_symbol_text(option_text(associated_type), fn_name@));
    symbol
}

/// The identifier of the emitted function.
pub fn local_identifier(associated_type: Option<&str>, fn_name: &str) -> (identifier: String)
    ensures
        identifier@ == local_identifier_text(option_text(associated_type), fn_name@),
{
    proof {
        reveal_strlit("_");
    }
    let mut identifier = String::from_str(SWIFT_BRIDGE_PREFIX);
    match associated_type {
        Some(ty) => {
            identifier.append(ty);
            identifier.append("_");
        },
        None => {},
    }
    identifier.append(fn_name);
    assert(identifier@ =~= local_identifier_text(option_text(associated_type), fn_name@));
    identifier
}

/// The link-time symbol of the type's release function.
pub fn free_symbol(ty: &str) -> (symbol: String)
    ensures
        symbol@ == free_symbol_text(ty@),
{
    proof {
        reveal_strlit("$");
    }
    let mut symbol = String::from_str(SWIFT_BRIDGE_PREFIX);
    symbol.append("$");
    symbol.append(ty);
    symbol.append("$_free");
    assert(symbol@ =~= free_symbol_text(ty@));
    symbol
}

/// The identifier of the type's release function.
pub fn free_identifier(ty: &str) -> (identifier: String)
    ensures
        identifier@ == free_identifier_text(ty@),
{
    let mut identifier = String::from_str(SWIFT_BRIDGE_PREFIX);
    identifier.append(ty);
    identifier.append("__free");
    identifier
}

} // verus!

use vstd::prelude::*;
use crate::text::string_views;

verus! {

/// A token of a field type, reduced to what generic-bound selection reads.
#[derive(Debug)]
pub enum TypeToken {
    /// An identifier, written as its source text.
    Ident(String),
    /// A delimited group and the tokens inside it.
    Group(Vec<TypeToken>),
    /// Any other token (punctuation or literal).
    Other,
}

/// Whether `token` is, or contains at any depth, an identifier named in `params`.
pub open spec fn token_mentions(token: TypeToken, params: Seq<Seq<char>>) -> bool
    decreases token, 0int,
{
    match token {
        TypeToken::Ident(name) => params.contains(name@),
        TypeToken::Group(inner) => tokens_mention(inner@, params),
        TypeToken::Other => false,
    }
}

/// Whether any token of `tokens` mentions a name in `params`.
pub open spec fn tokens_mention(tokens: Seq<TypeToken>, params: Seq<Seq<char>>) -> bool
    decreases tokens, 1int,
{
    if tokens.len() == 0 {
        false
    } else {
        token_mentions(tokens.last(), params) || tokens_mention(tokens.drop_last(), params)
    }
}

/// `tokens_mention` holds exactly when some token of the sequence mentions a name.
pub proof fn lemma_tokens_mention_some(tokens: Seq<TypeToken>, params: Seq<Seq<char>>)
    ensures
        tokens_mention(tokens, params) <==> exists|j: int|
            0 <= j < tokens.len() && #[trigger] token_mentions(tokens[j], params),
    decreases tokens.len(),
{
    if tokens.len() > 0 {
        let rest = tokens.drop_last();
        lemma_tokens_mention_some(rest, params);
        if tokens_mention(tokens, params) {
            if !token_mentions(tokens.last(), params) {
                let j = choose|j: int| 0 <= j < rest.len() && #[trigger] token_mentions(rest[j], params);
                assert(rest[j] == tokens[j]);
            }
        }
        if exists|j: int| 0 <= j < tokens.len() && #[trigger] token_mentions(tokens[j], params) {
            let j = choose|j: int| 0 <= j < tokens.len() && #[trigger] token_mentions(tokens[j], params);
            if j < tokens.len() - 1 {
                assert(rest[j] == tokens[j]);
                assert(token_mentions(rest[j], params));
            }
        }
    }
}

fn contains_name(params: &Vec<String>, name: &String) -> (found: bool)
    ensures
        found == string_views(params@).contains(name@),
{
    let mut i: usize = 0;
    while i < params.len()
        invariant
            i <= params.len(),
            forall|j: int| 0 <= j < i ==> params@[j]@ != name@,
        decreases params.len() - i,
    {
        if params[i] == *name {
            assert(string_views(params@)[i as int] == name@);
            return true;
        }
        i = i + 1;
    }
    proof {
        if string_views(params@).contains(name@) {
            let k = choose|k: int| 0 <= k < string_views(params@).len() && string_views(params@)[k] == name@;
            assert(params@[k]@ == name@);
        }
    }
    false
}

/// Whether a token sequence mentions one of the generic parameter names.
pub fn contains_parameter(tokens: &Vec<TypeToken>, params: &Vec<String>) -> (found: bool)
    ensures
        found == tokens_mention(tokens@, string_views(params@)),
    decreases tokens@,
{
    proof {
        lemma_tokens_mention_some(tokens@, string_views(params@));
    }
    let mut i: usize = 0;
    while i < tokens.len()
        invariant
            i <= tokens.len(),
            forall|j: int| 0 <= j < i ==> !token_mentions(#[trigger] tokens@[j], string_views(params@)),
        decreases tokens.len() - i,
    {
        let token = &tokens[i];
        let hit = match token {
            TypeToken::Ident(name) => contains_name(params, name),
            TypeToken::Group(inner) => {
                assert(decreases_to!(tokens@ => tokens@[i as int]));
                let h = contains_parameter(inner, params);
                assert(h == tokens_mention(inner@, string_views(params@)));
                assert(*token == tokens@[i as int]);
                assert(token_mentions(TypeToken::Group(*inner), string_views(params@)) == tokens_mention(inner@, string_views(params@)));
                assert(h == token_mentions(*token, string_views(params@)));
                h
            },
            TypeToken::Other => false,
        };
        assert(hit == token_mentions(tokens@[i as int], string_views(params@)));
        if hit {
            proof {
                lemma_tokens_mention_some(tokens@, string_views(params@));
            }
            return true;
        }
        i = i + 1;
    }
    false
}

/// A top-level token of a field's `#[rusqlite(...)]` argument list.
pub enum AttributeToken {
    /// An identifier, written as its source text.
    Ident(String),
    /// A delimited group: whether it is parenthesised, and whether it is empty.
    Group { parenthesized: bool, empty: bool },
    /// Any other token.
    Other,
}

/// A token of the flattened argument list, by reference to the input tokens.
#[derive(Clone, Copy, Debug, PartialEq, Eq, Structural)]
pub enum FlatToken {
    /// The input token at this index, unchanged.
    Keep(usize),
    /// A comma, placed where the group at this index was.
    Comma(usize),
    /// The contents of the group at this index.
    ContentsOf(usize),
}

/// Whether the token at `i` is `aggregate` followed by a parenthesised group.
pub open spec fn opens_aggregate_options(tokens: Seq<AttributeToken>, i: int) -> bool {
    &&& 0 <= i
    &&& i + 1 < tokens.len()
    &&& tokens[i] matches AttributeToken::Ident(name) && name@ == "aggregate"@
    &&& tokens[i + 1] matches AttributeToken::Group { parenthesized: true, .. }
}

/// The flattened form of the tokens from index `i` on: `aggregate(a, b)`
/// becomes `aggregate, a, b` and `aggregate()` becomes `aggregate`; every
/// other token is kept.
pub open spec fn flattened_from(tokens: Seq<AttributeToken>, i: int) -> Seq<FlatToken>
    decreases tokens.len() - i,
{
    if i < 0 || i >= tokens.len() {
        Seq::empty()
    } else if opens_aggregate_options(tokens, i) {
        let options = if tokens[i + 1] matches AttributeToken::Group { empty: true, .. } {
            Seq::empty()
        } else {
            seq![FlatToken::Comma((i + 1) as usize), FlatToken::ContentsOf((i + 1) as usize)]
        };
        seq![FlatToken::Keep(i as usize)] + options + flattened_from(tokens, i + 2)
    } else {
        seq![FlatToken::Keep(i as usize)] + flattened_from(tokens, i + 1)
    }
}

fn is_aggregate_ident(token: &AttributeToken) -> (res: bool)
    ensures
        res == (*token matches AttributeToken::Ident(name) && name@ == "aggregate"@),
{
    match token {
        AttributeToken::Ident(name) => crate::text::same_text(name.as_str(), "aggregate"),
        _ => false,
    }
}

/// Flattens `aggregate(...)` options into the surrounding argument list, so
/// that `aggregate(optional, item = T)` reads as `aggregate, optional, item = T`.
pub fn flatten_aggregate_options(tokens: &Vec<AttributeToken>) -> (res: Vec<FlatToken>)
    ensures
        res@ == flattened_from(tokens@, 0),
{
    let mut res: Vec<FlatToken> = Vec::new();
    let mut i: usize = 0;
    while i < tokens.len()
        invariant
            i <= tokens.len(),
            res@ + flattened_from(tokens@, i as int) == flattened_from(tokens@, 0),
        decreases tokens.len() - i,
    {
        let ghost before = res@;
        res.push(FlatToken::Keep(i));
        let opens = is_aggregate_ident(&tokens[i]) && i + 1 < tokens.len() && match &tokens[i + 1] {
            AttributeToken::Group { parenthesized, .. } => *parenthesized,
            _ => false,
        };
        if opens {
            match &tokens[i + 1] {
                AttributeToken::Group { empty, .. } => {
                    if !*empty {
                        res.push(FlatToken::Comma(i + 1));
                        res.push(FlatToken::ContentsOf(i + 1));
                    }
                },
                _ => {},
            }
            proof {
                assert(opens_aggregate_options(tokens@, i as int));
                assert(flattened_from(tokens@, i as int) =~= (res@.subrange(before.len() as int, res@.len() as int)) + flattened_from(tokens@, i + 2));
                assert(res@ =~= before + res@.subrange(before.len() as int, res@.len() as int));
            }
            i = i + 2;
        } else {
            proof {
                assert(!opens_aggregate_options(tokens@, i as int));
                assert(res@ =~= before + seq![FlatToken::Keep(i)]);
            }
            i = i + 1;
        }
    }
    proof {
        assert(flattened_from(tokens@, i as int) =~= Seq::<FlatToken>::empty());
        assert(res@ =~= res@ + flattened_from(tokens@, i as int));
    }
    res
}

} // verus!

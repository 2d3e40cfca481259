//! URL templates: text in which `${name}` and `${version}` stand for a
//! package's name and version.

use vstd::prelude::*;
use crate::text::{chars_of, find, find_char, find_str, is_text, push_str, string_of};

verus! {

/// A part of a URL template.
#[derive(Debug, PartialEq)]
pub enum UrlToken {
    /// The variable `${name}`.
    Name,
    /// The variable `${version}`.
    Version,
    /// A variable that is not known, with its name.
    Unsupported(String),
    /// Text that stands for itself.
    Normal(String),
}

/// What a token stands for.
pub enum TokenModel {
    Name,
    Version,
    Unsupported(Seq<char>),
    Normal(Seq<char>),
}

impl View for UrlToken {
    type V = TokenModel;

    open spec fn view(&self) -> TokenModel {
        match self {
            UrlToken::Name => TokenModel::Name,
            UrlToken::Version => TokenModel::Version,
            UrlToken::Unsupported(t) => TokenModel::Unsupported(t@),
            UrlToken::Normal(t) => TokenModel::Normal(t@),
        }
    }
}

/// What a list of tokens stands for.
pub open spec fn token_views(tokens: Seq<UrlToken>) -> Seq<TokenModel> {
    tokens.map_values(|t: UrlToken| t@)
}

/// The token of the variable called `name`.
pub open spec fn variable(name: Seq<char>) -> TokenModel {
    if name == "name"@ {
        TokenModel::Name
    } else if name == "version"@ {
        TokenModel::Version
    } else {
        TokenModel::Unsupported(name)
    }
}

/// The tokens of a template, or of what is left of one.
///
/// Outside a variable, text runs up to the next `${`; text of no length
/// gives no token. Inside a variable (`found`), the name runs up to the
/// next `}` that is not the last character of the template; where there is
/// none, the name is all that is left but its last character, and a single
/// character that is left gives no token.
pub open spec fn tokens(data: Seq<char>, found: bool) -> Seq<TokenModel>
    decreases data.len(),
{
    if data.len() == 0 {
        Seq::empty()
    } else if found {
        match data.drop_last().index_of_first('}') {
            Some(q) => if 0 <= q < data.len() {
                seq![variable(data.take(q))] + tokens(data.skip(q + 1), false)
            } else {
                Seq::empty()
            },
            None => if data.len() > 1 {
                seq![variable(data.drop_last())]
            } else {
                Seq::empty()
            },
        }
    } else {
        match find(data, "${"@) {
            None => seq![TokenModel::Normal(data)],
            Some(p) => if 0 < p && p + 2 <= data.len() {
                seq![TokenModel::Normal(data.take(p))] + tokens(data.skip(p + 2), true)
            } else if p == 0 && 2 <= data.len() {
                tokens(data.skip(2), true)
            } else {
                Seq::empty()
            },
        }
    }
}

/// The text that tokens stand for, with `name` and `version` in the place
/// of their variables; or the name of the first variable that is not known.
pub open spec fn rendered(tokens: Seq<TokenModel>, name: Seq<char>, version: Seq<char>) -> Result<
    Seq<char>,
    Seq<char>,
>
    decreases tokens.len(),
{
    if tokens.len() == 0 {
        Ok(Seq::empty())
    } else {
        match rendered(tokens.drop_last(), name, version) {
            Err(unknown) => Err(unknown),
            Ok(text) => match tokens.last() {
                TokenModel::Name => Ok(text + name),
                TokenModel::Version => Ok(text + version),
                TokenModel::Normal(t) => Ok(text + t),
                TokenModel::Unsupported(unknown) => Err(unknown),
            },
        }
    }
}

/// An unknown variable is reported whatever follows it.
pub proof fn lemma_rendered_failure_stays(
    head: Seq<TokenModel>,
    tail: Seq<TokenModel>,
    name: Seq<char>,
    version: Seq<char>,
)
    requires
        rendered(head, name, version) is Err,
    ensures
        rendered(head + tail, name, version) == rendered(head, name, version),
    decreases tail.len(),
{
    if tail.len() == 0 {
        assert(head + tail =~= head);
    } else {
        lemma_rendered_failure_stays(head, tail.drop_last(), name, version);
        assert((head + tail).drop_last() =~= head + tail.drop_last());
    }
}

/// A template without `${` stands for itself.
pub proof fn lemma_plain_template(data: Seq<char>, name: Seq<char>, version: Seq<char>)
    requires
        find(data, "${"@) is None,
    ensures
        rendered(tokens(data, false), name, version) == Ok::<Seq<char>, Seq<char>>(data),
{
    if data.len() == 0 {
        assert(data =~= Seq::<char>::empty());
    } else {
        let t = seq![TokenModel::Normal(data)];
        assert(t.drop_last() =~= Seq::<TokenModel>::empty());
        assert(rendered(t.drop_last(), name, version) == Ok::<Seq<char>, Seq<char>>(Seq::empty()));
        assert(Seq::<char>::empty() + data =~= data);
    }
}

/// Reads a URL template token by token.
pub struct UrlTokenizer {
    data: Vec<char>,
    read: usize,
    found: bool,
}

fn classify(name: &[char]) -> (token: UrlToken)
    ensures
        token@ == variable(name@),
{
    if is_text(name, "name") {
        UrlToken::Name
    } else if is_text(name, "version") {
        UrlToken::Version
    } else {
        UrlToken::Unsupported(string_of(name))
    }
}

impl UrlTokenizer {
    #[verifier::type_invariant]
    spec fn in_bounds(self) -> bool {
        self.read <= self.data@.len()
    }

    /// The tokens that were not handed out yet.
    pub closed spec fn pending(self) -> Seq<TokenModel> {
        tokens(self.data@.skip(self.read as int), self.found)
    }

    /// The number of characters that were not read yet.
    pub closed spec fn unread(self) -> nat {
        (self.data@.len() - self.read) as nat
    }

    /// The tokenizer of the template `data`.
    pub fn new(data: &str) -> (tokenizer: UrlTokenizer)
        ensures
            tokenizer.pending() == tokens(data@, false),
    {
        let chars = chars_of(data);
        assert(chars@.skip(0) =~= data@);
        UrlTokenizer { data: chars, read: 0, found: false }
    }

    /// Hands out the next token of the template.
    pub fn next(&mut self) -> (r: Option<UrlToken>)
        ensures
            match r {
                Some(token) => {
                    &&& old(self).pending().len() > 0
                    &&& token@ == old(self).pending()[0]
                    &&& final(self).pending() == old(self).pending().drop_first()
                    &&& final(self).unread() < old(self).unread()
                },
                None => old(self).pending().len() == 0 && final(self).pending().len() == 0,
            },
    {
        proof {
            use_type_invariant(&*self);
        }
        let n = self.data.len();
        if self.read >= n {
            assert(self.data@.skip(self.read as int) =~= Seq::<char>::empty());
            return None;
        }
        let ghost start = self.pending();
        if !self.found {
            let rest = &self.data[self.read..n];
            assert(rest@ =~= self.data@.skip(self.read as int));
            match find_str(rest, "${") {
                None => {
                    let token = UrlToken::Normal(string_of(rest));
                    self.read = n;
                    proof {
                        assert(self.data@.skip(n as int) =~= Seq::<char>::empty());
                        assert(start.drop_first() =~= Seq::<TokenModel>::empty());
                    }
                    return Some(token);
                },
                Some(p) => {
                    proof {
                        reveal_strlit("${");
                    }
                    let ghost tail = rest@.skip(p + 2);
                    assert(self.data@.skip(self.read + p + 2) =~= tail);
                    if p > 0 {
                        let head = &rest[0..p];
                        assert(head@ =~= rest@.take(p as int));
                        let token = UrlToken::Normal(string_of(head));
                        self.read = self.read + p + 2;
                        self.found = true;
                        proof {
                            let first = seq![TokenModel::Normal(rest@.take(p as int))];
                            assert((first + tokens(tail, true)).drop_first() =~= tokens(tail, true));
                        }
                        return Some(token);
                    } else {
                        self.read = self.read + 2;
                        self.found = true;
                    }
                },
            }
        }
        assert(start == tokens(self.data@.skip(self.read as int), true));
        if self.read >= n {
            assert(self.data@.skip(self.read as int) =~= Seq::<char>::empty());
            return None;
        }
        let rest = &self.data[self.read..n];
        assert(rest@ =~= self.data@.skip(self.read as int));
        let m = rest.len();
        let body = &rest[0..m - 1];
        assert(body@ =~= rest@.drop_last());
        match find_char(body, '}') {
            Some(q) => {
                let name = &rest[0..q];
                assert(name@ =~= rest@.take(q as int));
                let token = classify(name);
                let ghost tail = rest@.skip(q + 1);
                assert(self.data@.skip(self.read + q + 1) =~= tail);
                self.read = self.read + q + 1;
                self.found = false;
                proof {
                    let first = seq![variable(rest@.take(q as int))];
                    assert((first + tokens(tail, false)).drop_first() =~= tokens(tail, false));
                }
                Some(token)
            },
            None => {
                self.read = n;
                assert(self.data@.skip(n as int) =~= Seq::<char>::empty());
                if m > 1 {
                    let token = classify(body);
                    proof {
                        assert(start == seq![variable(rest@.drop_last())]);
                        assert(start.drop_first() =~= Seq::<TokenModel>::empty());
                    }
                    Some(token)
                } else {
                    None
                }
            },
        }
    }

    /// All tokens that were not handed out yet, in their order.
    pub fn collect(self) -> (all: Vec<UrlToken>)
        ensures
            token_views(all@) == self.pending(),
    {
        let mut tokenizer = self;
        let mut all: Vec<UrlToken> = Vec::new();
        proof {
            assert(token_views(all@) + tokenizer.pending() =~= self.pending());
        }
        loop
            invariant
                token_views(all@) + tokenizer.pending() == self.pending(),
            ensures
                token_views(all@) == self.pending(),
            decreases tokenizer.unread(),
        {
            let ghost before = tokenizer.pending();
            let ghost seen = all@;
            match tokenizer.next() {
                Some(token) => {
                    all.push(token);
                    proof {
                        assert(token_views(all@) =~= token_views(seen).push(token@));
                        assert(token_views(all@) + tokenizer.pending() =~= token_views(seen)
                            + before);
                    }
                },
                None => {
                    proof {
                        assert(before =~= Seq::<TokenModel>::empty());
                        assert(token_views(all@) + before =~= token_views(all@));
                    }
                    break ;
                },
            }
        }
        all
    }

    /// The URL that the template `data` stands for, with `name` and
    /// `version` in the place of their variables. Fails with the name of
    /// the first variable that is not known.
    pub fn finalize(data: &str, name: &str, version: &str) -> (r: Result<String, String>)
        ensures
            match r {
                Ok(url) => rendered(tokens(data@, false), name@, version@) == Ok::<
                    Seq<char>,
                    Seq<char>,
                >(url@),
                Err(unknown) => rendered(tokens(data@, false), name@, version@) == Err::<
                    Seq<char>,
                    Seq<char>,
                >(unknown@),
            },
    {
        let mut tokenizer = UrlTokenizer::new(data);
        let mut out: Vec<char> = Vec::new();
        let ghost all = tokens(data@, false);
        let ghost mut done: Seq<TokenModel> = Seq::empty();
        proof {
            assert(done + tokenizer.pending() =~= all);
        }
        loop
            invariant
                all == tokens(data@, false),
                done + tokenizer.pending() == all,
                rendered(done, name@, version@) == Ok::<Seq<char>, Seq<char>>(out@),
            ensures
                done == all,
                rendered(done, name@, version@) == Ok::<Seq<char>, Seq<char>>(out@),
            decreases tokenizer.unread(),
        {
            let ghost before = tokenizer.pending();
            match tokenizer.next() {
                Some(token) => {
                    proof {
                        let next = done.push(token@);
                        assert(next.drop_last() =~= done);
                        assert(next + tokenizer.pending() =~= done + before);
                        done = next;
                    }
                    match token {
                        UrlToken::Normal(text) => {
                            push_str(&mut out, text.as_str());
                        },
                        UrlToken::Name => {
                            push_str(&mut out, name);
                        },
                        UrlToken::Version => {
                            push_str(&mut out, version);
                        },
                        UrlToken::Unsupported(text) => {
                            proof {
                                assert(rendered(done, name@, version@) == Err::<
                                    Seq<char>,
                                    Seq<char>,
                                >(text@));
                                lemma_rendered_failure_stays(
                                    done,
                                    tokenizer.pending(),
                                    name@,
                                    version@,
                                );
                            }
                            return Err(text);
                        },
                    }
                },
                None => {
                    proof {
                        assert(before =~= Seq::<TokenModel>::empty());
                        assert(done + before =~= done);
                    }
                    break ;
                },
            }
        }
        Ok(string_of(out.as_slice()))
    }
}

} // verus!

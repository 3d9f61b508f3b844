//! The per-VM OpenSSH client configuration: where it lives and what it
//! says.  Writing and removing the files is the caller's side.

use vstd::prelude::*;

verus! {

use crate::text::{join_with, join_strings, split_char, split_seq, str_eq};
use vstd::string::StringExecFns;

/// What `urlencoding::encode` returns for a text.
pub uninterp spec fn url_encoded_of(s: Seq<char>) -> Seq<char>;

/// Relies on urlencoding::encode: percent-encodes every byte except ASCII
/// alphanumerics and `-`, `_`, `.`, `~`; the result is a function of the
/// input alone.
#[verifier::external_body]
fn encode_raw(data: &str) -> (r: String)
    ensures
        r@ == url_encoded_of(data@),
{
    urlencoding::encode(data).into_owned()
}

/// The percent-encoded form of a text, safe as a file name.
pub fn encode(data: &str) -> (r: String)
    ensures
        r@ == url_encoded_of(data@),
{
    encode_raw(data)
}

/// The file a VM's OpenSSH configuration lives in: its percent-encoded name
/// under the configurations directory.
pub fn vm_config_path(configs_dir: &str, name: &str) -> (r: String)
    ensures
        r@ == configs_dir@ + "/"@ + url_encoded_of(name@),
{
    let mut r = configs_dir.to_owned();
    r.append("/");
    let enc = encode(name);
    r.append(enc.as_str());
    r
}

/// One option piece turned into configuration syntax: its `=` separators
/// replaced by spaces.
pub open spec fn option_line_of(p: Seq<char>) -> Seq<char> {
    join_with(split_seq(p, '='), " "@)
}

/// The flag text turned back into configuration lines: the space-separated
/// pieces, without the empty ones and the `-o` flags, each with its `=`
/// replaced by a space.
pub open spec fn options_from(pieces: Seq<Seq<char>>) -> Seq<Seq<char>>
    decreases pieces.len(),
{
    if pieces.len() == 0 {
        Seq::empty()
    } else {
        let rest = options_from(pieces.drop_last());
        if pieces.last().len() == 0 || pieces.last() == "-o"@ {
            rest
        } else {
            rest.push(option_line_of(pieces.last()))
        }
    }
}

/// Turns an option flag text into configuration option lines.
#[verifier::loop_isolation(false)]
pub fn str_to_options(s: &str) -> (r: Vec<String>)
    ensures
        r.deep_view() == options_from(split_seq(s@, ' ')),
{
    let pieces = split_char(s, ' ');
    let ghost pv = pieces.deep_view();
    let mut r: Vec<String> = Vec::new();
    let mut i: usize = 0;
    proof {
        assert(pv.take(0) =~= Seq::<Seq<char>>::empty());
        assert(r.deep_view() =~= options_from(pv.take(0)));
    }
    while i < pieces.len()
        invariant
            0 <= i <= pieces.len(),
            r.deep_view() == options_from(pv.take(i as int)),
        decreases pieces.len() - i,
    {
        proof {
            assert(pv.take(i + 1).drop_last() =~= pv.take(i as int));
            assert(pv.take(i + 1).last() == pv[i as int]);
        }
        let piece = &pieces[i];
        if piece.as_str().unicode_len() > 0 && !str_eq(piece.as_str(), "-o") {
            let ghost r0 = r.deep_view();
            let parts = split_char(piece.as_str(), '=');
            let line = join_strings(&parts, " ");
            r.push(line);
            proof {
                assert(r.deep_view() =~= r0.push(option_line_of(pv[i as int])));
            }
        }
        i += 1;
    }
    proof {
        assert(pv.take(pieces.len() as int) =~= pv);
    }
    r
}

} // verus!

//! Output formatter: renders a resolved reply through a directive-based
//! template into one output line.
//!
//! The template is consumed in a single left-to-right pass. A `%` makes
//! the next byte a directive key, replaced per the directive table; an
//! unknown key is echoed verbatim together with its `%`; a `%` that ends
//! the template is emitted as a bare `%`.

use vstd::prelude::*;

verus! {

/// The directive marker byte, `%`.
pub const PERCENT: u8 = 37;

/// A fully-resolved reply context: every field a directive can name,
/// as plain bytes. The nickname field already carries the display-name
/// fallback (the per-server nickname, or the global username when the
/// author has none).
#[derive(Debug, Clone, PartialEq)]
pub struct ReplyContext {
    /// The reply's text, for `%m`.
    pub content: Vec<u8>,
    /// The reply's message identifier, for `%M`.
    pub message_id: Vec<u8>,
    /// The author's global username, for `%u`.
    pub username: Vec<u8>,
    /// The author's identifier, for `%U`.
    pub author_id: Vec<u8>,
    /// The author's discriminator, for `%d`.
    pub discriminator: Vec<u8>,
    /// The author's resolved display name, for `%n`.
    pub nick: Vec<u8>,
    /// The channel name the request named, for `%c`.
    pub channel_name: Vec<u8>,
    /// The channel identifier the reply reports, for `%C`.
    pub channel_id: Vec<u8>,
    /// The server name the request named, for `%s`.
    pub server_name: Vec<u8>,
    /// The resolved server identifier, for `%S`.
    pub server_id: Vec<u8>,
}

/// What one directive key renders to: a context field, a literal `%`
/// for `%%`, or the `%` and the key unchanged when the key is unknown.
pub open spec fn directive(ctx: ReplyContext, k: u8) -> Seq<u8> {
    if k == 37 {  // %
        seq![37u8]
    } else if k == 109 {  // m
        ctx.content@
    } else if k == 77 {  // M
        ctx.message_id@
    } else if k == 117 {  // u
        ctx.username@
    } else if k == 85 {  // U
        ctx.author_id@
    } else if k == 100 {  // d
        ctx.discriminator@
    } else if k == 110 {  // n
        ctx.nick@
    } else if k == 99 {  // c
        ctx.channel_name@
    } else if k == 67 {  // C
        ctx.channel_id@
    } else if k == 115 {  // s
        ctx.server_name@
    } else if k == 83 {  // S
        ctx.server_id@
    } else {
        seq![37u8, k]
    }
}

/// The rendering of the template from position `i` on: literal bytes
/// pass through, `%` plus a key renders per the directive table, and a
/// trailing lone `%` stays.
pub open spec fn fmt_from(t: Seq<u8>, ctx: ReplyContext, i: int) -> Seq<u8>
    decreases t.len() - i,
{
    if i < 0 || i >= t.len() {
        Seq::empty()
    } else if t[i] == 37 {
        if i + 1 >= t.len() {
            seq![37u8]
        } else {
            directive(ctx, t[i + 1]) + fmt_from(t, ctx, i + 2)
        }
    } else {
        seq![t[i]] + fmt_from(t, ctx, i + 1)
    }
}

/// The full rendering of a template over a reply context.
pub open spec fn format_spec(t: Seq<u8>, ctx: ReplyContext) -> Seq<u8> {
    fmt_from(t, ctx, 0)
}

fn append_directive(out: &mut Vec<u8>, ctx: &ReplyContext, k: u8)
    ensures
        final(out)@ == old(out)@ + directive(*ctx, k),
{
    if k == 37 {
        out.push(37);
        proof {
            assert(out@ =~= old(out)@ + directive(*ctx, k));
        }
    } else if k == 109 {
        out.extend_from_slice(ctx.content.as_slice());
    } else if k == 77 {
        out.extend_from_slice(ctx.message_id.as_slice());
    } else if k == 117 {
        out.extend_from_slice(ctx.username.as_slice());
    } else if k == 85 {
        out.extend_from_slice(ctx.author_id.as_slice());
    } else if k == 100 {
        out.extend_from_slice(ctx.discriminator.as_slice());
    } else if k == 110 {
        out.extend_from_slice(ctx.nick.as_slice());
    } else if k == 99 {
        out.extend_from_slice(ctx.channel_name.as_slice());
    } else if k == 67 {
        out.extend_from_slice(ctx.channel_id.as_slice());
    } else if k == 115 {
        out.extend_from_slice(ctx.server_name.as_slice());
    } else if k == 83 {
        out.extend_from_slice(ctx.server_id.as_slice());
    } else {
        out.push(37);
        out.push(k);
        proof {
            assert(out@ =~= old(out)@ + directive(*ctx, k));
        }
    }
}

/// Renders a template over a fully-resolved reply context, in one
/// left-to-right pass with no backtracking.
pub fn format_reply(template: &Vec<u8>, ctx: &ReplyContext) -> (r: Vec<u8>)
    ensures
        r@ == format_spec(template@, *ctx),
{
    let n = template.len();
    let mut out: Vec<u8> = Vec::new();
    let mut i: usize = 0;
    while i < n
        invariant
            n == template@.len(),
            i <= n,
            out@ + fmt_from(template@, *ctx, i as int) == format_spec(template@, *ctx),
        decreases n - i,
    {
        let ghost pre = out@;
        let c = template[i];
        if c == PERCENT {
            if i + 1 < n {
                let k = template[i + 1];
                append_directive(&mut out, ctx, k);
                proof {
                    assert(out@ + fmt_from(template@, *ctx, i + 2) =~= pre + fmt_from(
                        template@,
                        *ctx,
                        i as int,
                    ));
                }
                i = i + 2;
            } else {
                out.push(37);
                proof {
                    assert(out@ + fmt_from(template@, *ctx, i + 1) =~= pre + fmt_from(
                        template@,
                        *ctx,
                        i as int,
                    ));
                }
                i = i + 1;
            }
        } else {
            out.push(c);
            proof {
                assert(out@ + fmt_from(template@, *ctx, i + 1) =~= pre + fmt_from(
                    template@,
                    *ctx,
                    i as int,
                ));
            }
            i = i + 1;
        }
    }
    proof {
        assert(out@ + fmt_from(template@, *ctx, n as int) =~= out@);
    }
    out
}

/// The author's display name: the per-server nickname when one exists,
/// else the global username.
pub fn display_name(nick: Option<Vec<u8>>, username: Vec<u8>) -> (r: Vec<u8>)
    ensures
        nick matches Some(n) ==> r == n,
        nick is None ==> r == username,
{
    match nick {
        Some(n) => n,
        None => username,
    }
}

/// The server a reply belongs to: the one the reply reports, else the
/// one the request was made against.
pub fn resolve_guild(reply_guild: Option<Vec<u8>>, request_guild: Vec<u8>) -> (r: Vec<u8>)
    ensures
        reply_guild matches Some(g) ==> r == g,
        reply_guild is None ==> r == request_guild,
{
    match reply_guild {
        Some(g) => g,
        None => request_guild,
    }
}

} // verus!

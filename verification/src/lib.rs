//! Library behind a command-line tool that gates a smart-contract upgrade
//! behind a pipeline of safety checks and renders the final upgrade
//! invocation. The checks, the semantic-version comparison, the metadata
//! extraction and the command builder live here, fully verified; process
//! invocation and interactive prompting stay with the binary.

pub mod security_checks;
pub mod text;

use vstd::prelude::*;

use crate::security_checks::SecurityCheckContext;

verus! {

/// Arguments describing one intended contract upgrade.
pub struct UpgradeArgs {
    /// The contract ID to upgrade.
    pub id: String,
    /// The new WASM hash for the upgrade.
    pub wasm_hash: String,
    /// Source account to pay for the upgrade.
    pub source: String,
    /// Network to use (testnet, futurenet, mainnet).
    pub network: String,
    /// RPC server endpoint.
    pub rpc_url: Option<String>,
    /// RPC header(s) to pass to the RPC provider.
    pub rpc_header: Option<Vec<String>>,
    /// Network passphrase to sign the transaction.
    pub network_passphrase: Option<String>,
    /// Fee amount for the transaction, in stroops.
    pub fee: u32,
    /// Whether to only simulate the transaction.
    pub is_view: bool,
    /// Number of instructions to simulate.
    pub instructions: Option<u32>,
    /// Only build the transaction and output base64 XDR.
    pub build_only: bool,
    /// Whether to send the transaction (yes, no, default).
    pub send: Option<String>,
    /// Output the cost execution to stderr.
    pub cost: bool,
    /// Force the upgrade, skipping the safety checks.
    pub force: bool,
    /// Additional contract function arguments.
    pub contract_args: Vec<String>,
}

/// The tool's command surface.
pub enum Commands {
    /// Upgrade a Stellar smart contract.
    Upgrade(UpgradeArgs),
}

/// Top-level command-line shape.
pub struct UpgraderCli {
    pub command: Commands,
}

/// An optional parameter's rendering: the flag followed by the value, or
/// nothing when the value was not supplied.
pub open spec fn opt_part(flag: Seq<char>, v: Option<String>) -> Seq<char> {
    match v {
        Some(s) => flag + s@,
        None => Seq::empty(),
    }
}

/// A boolean flag's rendering: the flag itself, or nothing.
pub open spec fn flag_part(flag: Seq<char>, on: bool) -> Seq<char> {
    if on {
        flag
    } else {
        Seq::empty()
    }
}

/// The fee parameter is rendered only when it differs from the documented
/// default of 100 stroops.
pub open spec fn fee_part(fee: u32) -> Seq<char> {
    if fee != 100 {
        " --fee "@ + text::dec_str(fee as int)
    } else {
        Seq::empty()
    }
}

/// The instruction-budget parameter's rendering.
pub open spec fn instructions_part(instructions: Option<u32>) -> Seq<char> {
    match instructions {
        Some(n) => " --instructions "@ + text::dec_str(n as int),
        None => Seq::empty(),
    }
}

/// One repeated flag per header, in the order the headers were supplied.
pub open spec fn headers_part(hs: Seq<Seq<char>>) -> Seq<char>
    decreases hs.len(),
{
    if hs.len() == 0 {
        Seq::empty()
    } else {
        headers_part(hs.drop_last()) + " --rpc-header "@ + hs.last()
    }
}

/// All RPC headers' rendering, or nothing when none were supplied.
pub open spec fn headers_all(h: Option<Vec<String>>) -> Seq<char> {
    match h {
        Some(hs) => headers_part(hs@.map_values(|x: String| x@)),
        None => Seq::empty(),
    }
}

/// Caller-supplied trailing arguments, each preceded by a space, in their
/// original order.
pub open spec fn trailing_part(xs: Seq<Seq<char>>) -> Seq<char>
    decreases xs.len(),
{
    if xs.len() == 0 {
        Seq::empty()
    } else {
        trailing_part(xs.drop_last()) + " "@ + xs.last()
    }
}

/// The exact text of the upgrade invocation for `args`: the four base
/// parameters, then each optional parameter the caller supplied, then the
/// upgrade function with the new code hash and the trailing arguments.
pub open spec fn upgrade_command(args: UpgradeArgs) -> Seq<char> {
    "stellar contract invoke --id "@ + args.id@ + " --source "@ + args.source@ + " --network "@
        + args.network@ + opt_part(" --rpc-url "@, args.rpc_url) + headers_all(args.rpc_header)
        + opt_part(" --network-passphrase "@, args.network_passphrase) + fee_part(args.fee)
        + flag_part(" --is-view"@, args.is_view) + instructions_part(args.instructions)
        + flag_part(" --build-only"@, args.build_only) + opt_part(" --send "@, args.send)
        + flag_part(" --cost"@, args.cost) + " -- upgrade --new_wasm_hash "@ + args.wasm_hash@
        + trailing_part(args.contract_args@.map_values(|x: String| x@))
}

/// Appends an optional parameter: the flag and its value, or nothing.
fn append_opt(s: &mut String, flag: &str, v: &Option<String>)
    ensures
        final(s)@ == old(s)@ + opt_part(flag@, *v),
{
    match v {
        Some(value) => {
            s.append(flag);
            s.append(value.as_str());
            proof {
                assert(s@ =~= old(s)@ + opt_part(flag@, *v));
            }
        },
        None => {
            proof {
                assert(s@ =~= old(s)@ + opt_part(flag@, *v));
            }
        },
    }
}

/// Appends a boolean flag, or nothing.
fn append_flag(s: &mut String, flag: &str, on: bool)
    ensures
        final(s)@ == old(s)@ + flag_part(flag@, on),
{
    if on {
        s.append(flag);
    }
    proof {
        assert(s@ =~= old(s)@ + flag_part(flag@, on));
    }
}

/// Appends the fee parameter when it differs from the default.
fn append_fee(s: &mut String, fee: u32)
    ensures
        final(s)@ == old(s)@ + fee_part(fee),
{
    if fee != 100 {
        s.append(" --fee ");
        text::append_decimal(s, fee);
        proof {
            assert(s@ =~= old(s)@ + fee_part(fee));
        }
    } else {
        proof {
            assert(s@ =~= old(s)@ + fee_part(fee));
        }
    }
}

/// Appends the instruction budget, when one was supplied.
fn append_instructions(s: &mut String, instructions: Option<u32>)
    ensures
        final(s)@ == old(s)@ + instructions_part(instructions),
{
    match instructions {
        Some(instr) => {
            s.append(" --instructions ");
            text::append_decimal(s, instr);
            proof {
                assert(s@ =~= old(s)@ + instructions_part(instructions));
            }
        },
        None => {
            proof {
                assert(s@ =~= old(s)@ + instructions_part(instructions));
            }
        },
    }
}

/// Appends one repeated flag per supplied RPC header, in order.
fn append_headers(s: &mut String, h: &Option<Vec<String>>)
    ensures
        final(s)@ == old(s)@ + headers_all(*h),
{
    match h {
        Some(headers) => {
            let ghost hs_view = headers@.map_values(|x: String| x@);
            let mut k: usize = 0;
            while k < headers.len()
                invariant
                    k <= headers.len(),
                    hs_view == headers@.map_values(|x: String| x@),
                    s@ =~= old(s)@ + headers_part(hs_view.take(k as int)),
                decreases headers.len() - k,
            {
                s.append(" --rpc-header ");
                s.append(headers[k].as_str());
                proof {
                    assert(hs_view.take(k + 1).drop_last() =~= hs_view.take(k as int));
                    assert(hs_view.take(k + 1).last() == hs_view[k as int]);
                    assert(s@ =~= old(s)@ + headers_part(hs_view.take(k + 1)));
                }
                k += 1;
            }
            proof {
                assert(hs_view.take(headers@.len() as int) =~= hs_view);
            }
        },
        None => {
            proof {
                assert(s@ =~= old(s)@ + headers_all(*h));
            }
        },
    }
}

/// Appends the caller-supplied trailing arguments, in order.
fn append_trailing(s: &mut String, xs: &Vec<String>)
    ensures
        final(s)@ == old(s)@ + trailing_part(xs@.map_values(|x: String| x@)),
{
    let ghost xs_view = xs@.map_values(|x: String| x@);
    let mut k: usize = 0;
    while k < xs.len()
        invariant
            k <= xs.len(),
            xs_view == xs@.map_values(|x: String| x@),
            s@ =~= old(s)@ + trailing_part(xs_view.take(k as int)),
        decreases xs.len() - k,
    {
        s.append(" ");
        s.append(xs[k].as_str());
        proof {
            assert(xs_view.take(k + 1).drop_last() =~= xs_view.take(k as int));
            assert(xs_view.take(k + 1).last() == xs_view[k as int]);
            assert(s@ =~= old(s)@ + trailing_part(xs_view.take(k + 1)));
        }
        k += 1;
    }
    proof {
        assert(xs_view.take(xs@.len() as int) =~= xs_view);
    }
}

/// Renders the upgrade invocation for `args`. Pure and deterministic: the
/// result is pinned, character for character, to `upgrade_command`, so two
/// calls on the same request yield identical strings.
pub fn generate_upgrade_command(args: &UpgradeArgs) -> (r: String)
    ensures
        r@ == upgrade_command(*args),
{
    let mut command = String::from_str("stellar contract invoke --id ");
    command.append(args.id.as_str());
    command.append(" --source ");
    command.append(args.source.as_str());
    command.append(" --network ");
    command.append(args.network.as_str());
    append_opt(&mut command, " --rpc-url ", &args.rpc_url);
    append_headers(&mut command, &args.rpc_header);
    append_opt(&mut command, " --network-passphrase ", &args.network_passphrase);
    append_fee(&mut command, args.fee);
    append_flag(&mut command, " --is-view", args.is_view);
    append_instructions(&mut command, args.instructions);
    append_flag(&mut command, " --build-only", args.build_only);
    append_opt(&mut command, " --send ", &args.send);
    append_flag(&mut command, " --cost", args.cost);
    command.append(" -- upgrade --new_wasm_hash ");
    command.append(args.wasm_hash.as_str());
    append_trailing(&mut command, &args.contract_args);
    command
}

/// Runs the registered checks against the populated context and, only when
/// every one of them passes, renders the upgrade invocation. A failed run
/// hands back the failing check's reason and never builds a command.
pub fn checked_upgrade_command(args: &UpgradeArgs, context: &mut SecurityCheckContext) -> (r:
    Result<String, String>)
    ensures
        *final(context) == *old(context),
        match r {
            Ok(cmd) => security_checks::pipeline_outcome(
                security_checks::registered_checks(),
                *args,
                *old(context),
            ) is Ok && cmd@ == upgrade_command(*args),
            Err(e) => security_checks::pipeline_outcome(
                security_checks::registered_checks(),
                *args,
                *old(context),
            ) matches Err(m) && e@ == m,
        },
{
    match security_checks::run_all_checks(args, context) {
        Ok(()) => Ok(generate_upgrade_command(args)),
        Err(e) => Err(e),
    }
}

/// What `str::trim` returns: the characters with leading and trailing
/// whitespace removed. A function of the characters alone.
pub uninterp spec fn trimmed_of(s: Seq<char>) -> Seq<char>;

/// What `str::to_lowercase` returns: the Unicode lowercase conversion of the
/// characters. A function of the characters alone.
pub uninterp spec fn lowercase_of(s: Seq<char>) -> Seq<char>;

/// Relies on str::trim: removes leading and trailing whitespace and nothing
/// else; the result depends on the characters alone.
#[verifier::external_body]
fn trim_text(s: &str) -> (r: &str)
    ensures
        r@ == trimmed_of(s@),
{
    s.trim()
}

/// Relies on str::to_lowercase: the Unicode lowercase conversion; the result
/// depends on the characters alone.
#[verifier::external_body]
fn lowercase_text(s: &str) -> (r: String)
    ensures
        r@ == lowercase_of(s@),
{
    s.to_lowercase()
}

/// An affirmative answer to a yes/no question: exactly "y" or "yes".
pub open spec fn affirmative(s: Seq<char>) -> bool {
    s == "y"@ || s == "yes"@
}

/// Decides `affirmative` on an already-normalized answer.
fn is_affirmative(s: &str) -> (r: bool)
    ensures
        r == affirmative(s@),
{
    proof {
        reveal_strlit("y");
        reveal_strlit("yes");
    }
    let n = s.unicode_len();
    if n == 1 {
        let r = s.get_char(0) == 'y';
        proof {
            if r {
                assert(s@ =~= "y"@);
            }
            assert(s@.len() != "yes"@.len());
        }
        r
    } else if n == 3 {
        let r = s.get_char(0) == 'y' && s.get_char(1) == 'e' && s.get_char(2) == 's';
        proof {
            if r {
                assert(s@ =~= "yes"@);
            }
            assert(s@.len() != "y"@.len());
        }
        r
    } else {
        false
    }
}

/// Decides whether the caller confirmed a forced upgrade: the answer, with
/// surrounding whitespace removed and lowercased, must read "y" or "yes".
/// The interactive prompt lives at the binary boundary; callers there read
/// the answer first and always pass it in, so an absent answer is left out
/// here.
pub fn check_force_confirmation(input: Option<&str>) -> (r: Result<bool, String>)
    requires
        input is Some,
    ensures
        r matches Ok(b) && b == affirmative(lowercase_of(trimmed_of(input->0@))),
{
    let user_input = input.unwrap();
    let trimmed = trim_text(user_input);
    let lowered = lowercase_text(trimmed);
    Ok(is_affirmative(lowered.as_str()))
}

} // verus!

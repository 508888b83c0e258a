//! The 1Password item that stores a found wallet.

use vstd::prelude::*;
use crate::keys::Trial;
use crate::numbers::{decimal, format_with_commas, group_thousands};
use crate::report::{found_line, found_text};
use crate::text::{from_utf8_lossy, utf8_lossy};

verus! {

/// The string member `key` of the JSON object that `json` holds, as
/// `serde_json::from_slice::<Value>`, indexing by `key` and `Value::as_str` give it;
/// `None` when the bytes are not JSON or the member is absent or not a string.
pub uninterp spec fn json_string_member(json: Seq<u8>, key: Seq<char>) -> Option<Seq<char>>;

/// Calls `serde_json::from_slice::<serde_json::Value>`, indexes the value by `key`
/// (which gives `Value::Null` for a missing member or a value that is not an object)
/// and calls `as_str` on the member. The result is named, not stated.
#[verifier::external_body]
fn json_member_str(json: &[u8], key: &str) -> (r: Option<String>)
    ensures
        match r {
            Some(s) => json_string_member(json@, key@) == Some(s@),
            None => json_string_member(json@, key@) is None,
        },
{
    match serde_json::from_slice::<serde_json::Value>(json) {
        Ok(value) => match value[key].as_str() {
            Some(s) => Some(s.to_owned()),
            None => None,
        },
        Err(_) => None,
    }
}

/// The arguments of `op` that create a Crypto Wallet item titled with the address, in
/// `vault`, holding the address as text and the seed as a concealed field of the
/// `Wallet` section, and that ask for JSON output.
pub open spec fn op_create_args(address: Seq<char>, seed: Seq<char>, vault: Seq<char>) -> Seq<
    Seq<char>,
> {
    seq![
        "item"@,
        "create"@,
        "--title"@,
        address,
        "--vault"@,
        vault,
        "--category"@,
        "Crypto Wallet"@,
        "address[text]="@ + address,
        "seed[concealed,section=Wallet]="@ + seed,
        "--format"@,
        "json"@,
    ]
}

/// The views of a list of strings.
pub open spec fn views(v: Seq<String>) -> Seq<Seq<char>> {
    v.map_values(|s: String| s@)
}

/// The arguments of the `op` command that stores `trial` in `vault`.
pub fn op_item_create_args(trial: &Trial, vault: &str) -> (args: Vec<String>)
    ensures
        views(args@) == op_create_args(trial.address@, trial.seed@, vault@),
{
    let mut address_field = "address[text]=".to_owned();
    address_field.append(trial.address.as_str());
    let mut seed_field = "seed[concealed,section=Wallet]=".to_owned();
    seed_field.append(trial.seed.as_str());
    let mut args: Vec<String> = Vec::new();
    args.push("item".to_owned());
    args.push("create".to_owned());
    args.push("--title".to_owned());
    args.push(trial.address.clone());
    args.push("--vault".to_owned());
    args.push(vault.to_owned());
    args.push("--category".to_owned());
    args.push("Crypto Wallet".to_owned());
    args.push(address_field);
    args.push(seed_field);
    args.push("--format".to_owned());
    args.push("json".to_owned());
    assert(views(args@) =~= op_create_args(trial.address@, trial.seed@, vault@));
    args
}

/// The id that `op` reports for a created item: the `id` member of its JSON output, or
/// `unknown`.
pub open spec fn item_id_text(stdout: Seq<u8>) -> Seq<char> {
    match json_string_member(stdout, "id"@) {
        Some(id) => id,
        None => "unknown"@,
    }
}

/// The id of the item that `op` created, read from its output.
pub fn op_item_id(stdout: &[u8]) -> (id: String)
    ensures
        id@ == item_id_text(stdout@),
{
    match json_member_str(stdout, "id") {
        Some(id) => id,
        None => "unknown".to_owned(),
    }
}

/// The line announcing a wallet stored in 1Password.
pub open spec fn stored_text(num: nat, id: Seq<char>, vault: Seq<char>) -> Seq<char> {
    "\nFOUND XRP WALLET - scanned "@ + group_thousands(decimal(num)) + " seeds - Added ID "@ + id
        + " to 1Password vault '"@ + vault + "'!"@
}

/// The line announcing a wallet stored in 1Password after `num` seeds were tested.
pub fn op_success_message(num: u64, id: &str, vault: &str) -> (s: String)
    ensures
        s@ == stored_text(num as nat, id@, vault@),
{
    let mut s = "\nFOUND XRP WALLET - scanned ".to_owned();
    s.append(format_with_commas(num).as_str());
    s.append(" seeds - Added ID ");
    s.append(id);
    s.append(" to 1Password vault '");
    s.append(vault);
    s.append("'!");
    assert(s@ =~= stored_text(num as nat, id@, vault@));
    s
}

/// How the `op` command that stores a wallet ended.
pub enum OpReply {
    /// It ran and succeeded; what it wrote on standard output.
    Created { stdout: Vec<u8> },
    /// It ran and failed; what it wrote on standard error.
    Failed { stderr: Vec<u8> },
    /// It could not be started; the text of the error.
    NotRun { error: String },
}

/// What the finder writes for a found wallet: a line on standard output, a line on
/// standard error, or neither.
pub struct WalletOutput {
    pub stdout: Option<String>,
    pub stderr: Option<String>,
}

/// The texts of a pair of optional lines.
pub open spec fn line_texts(stdout: Option<String>, stderr: Option<String>) -> (
    Option<Seq<char>>,
    Option<Seq<char>>,
) {
    (
        match stdout {
            Some(s) => Some(s@),
            None => None,
        },
        match stderr {
            Some(s) => Some(s@),
            None => None,
        },
    )
}

impl WalletOutput {
    /// The texts of the standard output and standard error lines.
    pub open spec fn lines(&self) -> (Option<Seq<char>>, Option<Seq<char>>) {
        line_texts(self.stdout, self.stderr)
    }
}

/// What the finder writes once `op` has replied about a wallet found after `num` seeds:
/// the stored-wallet line on success, else the failure on standard error.
pub open spec fn stored_lines(num: nat, vault: Seq<char>, reply: OpReply) -> (
    Option<Seq<char>>,
    Option<Seq<char>>,
) {
    match reply {
        OpReply::Created { stdout } => (Some(stored_text(num, item_id_text(stdout@), vault)), None),
        OpReply::Failed { stderr } => (
            None,
            Some("Failed to create 1Password item: "@ + utf8_lossy(stderr@)),
        ),
        OpReply::NotRun { error } => (
            None,
            Some(
                "Failed to execute `op` command (is 1Password CLI installed and in PATH?): "@
                    + error@,
            ),
        ),
    }
}

/// What the finder writes for a wallet found after `num` seeds: when wallets go to
/// 1Password, what follows `op`'s reply; otherwise the line with the address and seed.
pub open spec fn wallet_lines(
    address: Seq<char>,
    seed: Seq<char>,
    num: nat,
    onep: bool,
    vault: Seq<char>,
    reply: OpReply,
) -> (Option<Seq<char>>, Option<Seq<char>>) {
    if onep {
        stored_lines(num, vault, reply)
    } else {
        (Some(found_text(num, address, seed)), None)
    }
}

/// What to do with a found wallet: print these lines, or run `op` with these arguments.
pub enum FoundStep {
    Print(WalletOutput),
    Store(Vec<String>),
}

/// What to do with `trial`, found after `num` seeds: print it, or, when wallets go to
/// 1Password, store it in `vault`.
pub fn found_step(trial: &Trial, num: u64, onep: bool, vault: &str) -> (step: FoundStep)
    ensures
        !onep ==> (step matches FoundStep::Print(out) && out.lines() == (
            Some(found_text(num as nat, trial.address@, trial.seed@)),
            None::<Seq<char>>,
        )),
        onep ==> (step matches FoundStep::Store(args) && views(args@) == op_create_args(
            trial.address@,
            trial.seed@,
            vault@,
        )),
{
    if onep {
        FoundStep::Store(op_item_create_args(trial, vault))
    } else {
        FoundStep::Print(WalletOutput { stdout: Some(found_line(num, trial)), stderr: None })
    }
}

/// What to write once `op` has replied about a wallet found after `num` seeds.
pub fn vault_output(num: u64, vault: &str, reply: &OpReply) -> (out: WalletOutput)
    ensures
        out.lines() == stored_lines(num as nat, vault@, *reply),
        reply is Created ==> out.stdout is Some && out.stderr is None,
        !(reply is Created) ==> out.stdout is None && out.stderr is Some,
{
    match reply {
        OpReply::Created { stdout } => {
            let id = op_item_id(stdout.as_slice());
            WalletOutput { stdout: Some(op_success_message(num, id.as_str(), vault)), stderr: None }
        },
        OpReply::Failed { stderr } => {
            let mut line = "Failed to create 1Password item: ".to_owned();
            line.append(from_utf8_lossy(stderr.as_slice()).as_str());
            WalletOutput { stdout: None, stderr: Some(line) }
        },
        OpReply::NotRun { error } => {
            let mut line =
                "Failed to execute `op` command (is 1Password CLI installed and in PATH?): ".to_owned();
            line.append(error.as_str());
            WalletOutput { stdout: None, stderr: Some(line) }
        },
    }
}

/// Law: when wallets go to 1Password, the lines written for a found wallet are the same
/// whatever its seed, so the seed is never printed; it reaches only the concealed
/// field among `op`'s arguments.
pub proof fn law_seed_not_printed_with_vault(
    address: Seq<char>,
    seed1: Seq<char>,
    seed2: Seq<char>,
    num: nat,
    vault: Seq<char>,
    reply: OpReply,
)
    ensures
        wallet_lines(address, seed1, num, true, vault, reply) == wallet_lines(
            address,
            seed2,
            num,
            true,
            vault,
            reply,
        ),
        op_create_args(address, seed1, vault).update(9, Seq::empty()) == op_create_args(
            address,
            seed2,
            vault,
        ).update(9, Seq::empty()),
{
    assert(op_create_args(address, seed1, vault).update(9, Seq::empty()) =~= op_create_args(
        address,
        seed2,
        vault,
    ).update(9, Seq::empty()));
}

} // verus!

//! The commands that are run, and what is made of their output.

use vstd::prelude::*;
use vstd::string::*;
use vstd::utf8::{decode_utf8, valid_utf8};

use crate::error::HyprError;
use crate::identity::Client;
use crate::lookup::{visible_client_behind, visible_client_for_window};
use crate::monitors::{at_least_one, one_or_more};
use crate::registry::{can_sync, is_sound, synced, IdRegistry};
use crate::text::{
    decimal_signed, decimal_signed_text, is_blank, join_with_spaces, joined,
    lemma_trimmed_blank, texts, trim, trimmed,
};
use crate::windows::Snapshot;

verus! {

/// What a command left: whether it succeeded, how its exit status reads, and
/// what it wrote.
#[derive(Debug)]
pub struct CommandOutput {
    pub success: bool,
    pub status: String,
    pub stdout: Vec<u8>,
    pub stderr: Vec<u8>,
}

/// The text that `String::from_utf8_lossy` makes of `bytes`.
pub uninterp spec fn lossy_utf8(bytes: Seq<u8>) -> Seq<char>;

/// Calls `String::from_utf8_lossy`. Bytes that are a text in UTF-8 give that
/// text; what stands in for others is not said, but the same bytes give the
/// same text.
#[verifier::external_body]
fn text_of(bytes: &[u8]) -> (r: String)
    ensures
        r@ == lossy_utf8(bytes@),
        valid_utf8(bytes@) ==> r@ == decode_utf8(bytes@),
{
    String::from_utf8_lossy(bytes).into_owned()
}

/// What a failed command is reported with: what it wrote as an error, else
/// what else it wrote, else how it ended.
pub open spec fn failure_detail(
    stderr: Seq<char>,
    stdout: Seq<char>,
    status: Seq<char>,
) -> Seq<char> {
    if !is_blank(stderr) {
        trimmed(stderr)
    } else if !is_blank(stdout) {
        trimmed(stdout)
    } else {
        "exit status "@ + status
    }
}

/// What a failed command is reported with, where `stderr` and `stdout` are
/// the texts that it wrote.
pub fn command_detail(stderr: &str, stdout: &str, status: &str) -> (r: String)
    ensures
        r@ == failure_detail(stderr@, stdout@, status@),
{
    proof {
        lemma_trimmed_blank(stderr@);
        lemma_trimmed_blank(stdout@);
    }
    let error_text = trim(stderr);
    let detail = if error_text.is_empty() {
        trim(stdout)
    } else {
        error_text
    };
    if detail.is_empty() {
        "exit status ".to_owned().concat(status)
    } else {
        detail.to_owned()
    }
}

/// What a failed command is reported with.
pub fn command_error(output: &CommandOutput) -> (r: String)
    ensures
        r@ == failure_detail(
            lossy_utf8(output.stderr@),
            lossy_utf8(output.stdout@),
            output.status@,
        ),
{
    let stderr = text_of(output.stderr.as_slice());
    let stdout = text_of(output.stdout.as_slice());
    command_detail(stderr.as_str(), stdout.as_str(), output.status.as_str())
}

/// What `hyprctl -j` answered, as `parse` reads it, or why there is no answer:
/// the command failed, or `parse` did, for the reason that it gives.
pub fn hyprctl_json<T, P>(args: &Vec<String>, output: CommandOutput, parse: P) -> (r: Result<
    T,
    HyprError,
>) where P: FnOnce(&[u8]) -> Result<T, String>
    requires
        output.success ==> forall|answer: &[u8]|
            answer@ == output.stdout@ ==> #[trigger] call_requires(parse, (answer,)),
    ensures
        if output.success {
            exists|answer: &[u8], parsed: Result<T, String>| #[trigger]
                call_ensures(parse, (answer,), parsed) && answer@ == output.stdout@ && match parsed {
                    Ok(value) => r == Ok::<T, HyprError>(value),
                    Err(said) => r matches Err(HyprError::InvalidResponse { args: of, detail })
                        && of@ == joined(texts(args@), seq![' ']) && detail@ == said@,
                }
        } else {
            r matches Err(HyprError::HyprctlFailed { args: of, detail }) && of@ == joined(
                texts(args@),
                seq![' '],
            ) && detail@ == trimmed(lossy_utf8(output.stderr@))
        },
{
    if output.success {
        match parse(output.stdout.as_slice()) {
            Ok(value) => Ok(value),
            Err(detail) => Err(
                HyprError::InvalidResponse { args: join_with_spaces(args), detail },
            ),
        }
    } else {
        let stderr = text_of(output.stderr.as_slice());
        Err(
            HyprError::HyprctlFailed {
                args: join_with_spaces(args),
                detail: trim(stderr.as_str()).to_owned(),
            },
        )
    }
}

/// The image that `grim` made, or why there is none.
pub fn run_grim(args: &Vec<String>, output: CommandOutput) -> (r: Result<Vec<u8>, HyprError>)
    ensures
        match r {
            Ok(image) => output.success && image@.len() > 0 && image == output.stdout,
            Err(HyprError::GrimFailed { args: said, detail }) => {
                &&& !output.success
                &&& said@ == joined(texts(args@), seq![' '])
                &&& detail@ == trimmed(lossy_utf8(output.stderr@))
            },
            Err(HyprError::GrimEmpty { args: said }) => {
                &&& output.success
                &&& output.stdout@.len() == 0
                &&& said@ == joined(texts(args@), seq![' '])
            },
            Err(_) => false,
        },
{
    if !output.success {
        let stderr = text_of(output.stderr.as_slice());
        return Err(
            HyprError::GrimFailed {
                args: join_with_spaces(args),
                detail: trim(stderr.as_str()).to_owned(),
            },
        );
    }
    if output.stdout.len() == 0 {
        return Err(HyprError::GrimEmpty { args: join_with_spaces(args) });
    }
    Ok(output.stdout)
}

/// The region of a window, as `grim` takes it.
pub open spec fn region(client: Client) -> Seq<char> {
    decimal_signed(client.at[0] as int) + ","@ + decimal_signed(client.at[1] as int) + " "@
        + decimal_signed(at_least_one(client.size[0]) as int) + "x"@ + decimal_signed(
        at_least_one(client.size[1]) as int,
    )
}

fn region_of(client: &Client) -> (r: String)
    ensures
        r@ == region(*client),
{
    decimal_signed_text(client.at[0]).concat(",").concat(
        decimal_signed_text(client.at[1]).as_str(),
    ).concat(" ").concat(decimal_signed_text(one_or_more(client.size[0])).as_str()).concat(
        "x",
    ).concat(decimal_signed_text(one_or_more(client.size[1])).as_str())
}

/// What `grim` is run with to capture the window that `window_id` stands for.
pub fn capture_window(registry: &mut IdRegistry, snapshot: &Snapshot, window_id: u64) -> (r: Result<
    Vec<String>,
    HyprError,
>)
    requires
        is_sound(old(registry)@),
        can_sync(old(registry)@, snapshot.clients@),
    ensures
        is_sound(final(registry)@),
        final(registry)@ == synced(old(registry)@, snapshot.clients@),
        match visible_client_behind(final(registry)@, *snapshot, window_id) {
            Ok(client) => r matches Ok(args) && texts(args@) == seq![
                "-g"@,
                region(client),
                "-t"@,
                "png"@,
                "-"@,
            ],
            Err(error) => r == Err::<Vec<String>, HyprError>(error),
        },
{
    match visible_client_for_window(registry, snapshot, window_id) {
        Ok(client) => {
            let mut args: Vec<String> = Vec::new();
            args.push("-g".to_owned());
            args.push(region_of(client));
            args.push("-t".to_owned());
            args.push("png".to_owned());
            args.push("-".to_owned());
            assert(texts(args@) =~= seq!["-g"@, region(*client), "-t"@, "png"@, "-"@]);
            Ok(args)
        },
        Err(error) => Err(error),
    }
}

/// What `grim` is run with to capture the whole desktop.
pub fn capture_desktop() -> (args: Vec<String>)
    ensures
        texts(args@) == seq!["-t"@, "png"@, "-"@],
{
    let mut args: Vec<String> = Vec::new();
    args.push("-t".to_owned());
    args.push("png".to_owned());
    args.push("-".to_owned());
    assert(texts(args@) =~= seq!["-t"@, "png"@, "-"@]);
    args
}

} // verus!

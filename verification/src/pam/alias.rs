//! The writer as `setup --pam` reaches it. `setup --yes` both waives the
//! question and accepts a sensitive service, so a refusal names that flag.

use crate::pam::message::PamMessage;
use crate::pam::plan::{PamRequest, WriteAction, WriteRequest};
use crate::pam::report::require_module_installed;
use vstd::prelude::*;
use vstd::string::*;

verus! {

/// The write that the verb makes of a request.
pub fn verb_write<'a>(action: WriteAction, request: &'a PamRequest) -> (r: WriteRequest<'a>)
    ensures
        r.action == action,
        r.request == request,
        r.remedy@ == "--allow-sensitive"@,
{
    WriteRequest { action, request, remedy: "--allow-sensitive" }
}

/// Why `setup --pam` is refused, if it is.
pub open spec fn install_refusal(is_root: bool, module_there: Seq<bool>) -> Option<
    PamMessage<Seq<char>>,
> {
    if !is_root {
        Some(PamMessage::PamRootRequired { command: "sudo facelock setup --pam"@ })
    } else if !(module_there[0] || module_there[1] || module_there[2]) {
        Some(crate::pam::report::module_refusal())
    } else {
        None
    }
}

/// Why `setup --pam --remove` is refused, if it is.
pub open spec fn removal_refusal(is_root: bool) -> Option<PamMessage<Seq<char>>> {
    if !is_root {
        Some(PamMessage::PamRootRequired { command: "sudo facelock setup --pam --remove"@ })
    } else {
        None
    }
}

/// `setup --pam`: needs root, then the module.
pub fn install_for_setup<'a>(
    request: &'a PamRequest,
    is_root: bool,
    module_there: &Vec<bool>,
) -> (r: Result<WriteRequest<'a>, PamMessage>)
    requires
        module_there.len() == 3,
    ensures
        match r {
            Ok(write) => {
                &&& install_refusal(is_root, module_there@) is None
                &&& write.action == WriteAction::Add
                &&& write.request == request
                &&& write.remedy@ == "--yes"@
            },
            Err(m) => install_refusal(is_root, module_there@) == Some(m@),
        },
{
    if !is_root {
        return Err(
            PamMessage::PamRootRequired { command: String::from_str("sudo facelock setup --pam") },
        );
    }
    match require_module_installed(module_there) {
        Ok(_) => Ok(WriteRequest { action: WriteAction::Add, request, remedy: "--yes" }),
        Err(m) => Err(m),
    }
}

/// `setup --pam --remove`: needs root.
pub fn remove_for_setup<'a>(request: &'a PamRequest, is_root: bool) -> (r: Result<
    WriteRequest<'a>,
    PamMessage,
>)
    ensures
        match r {
            Ok(write) => {
                &&& removal_refusal(is_root) is None
                &&& write.action == WriteAction::Remove
                &&& write.request == request
                &&& write.remedy@ == "--yes"@
            },
            Err(m) => removal_refusal(is_root) == Some(m@),
        },
{
    if !is_root {
        return Err(
            PamMessage::PamRootRequired {
                command: String::from_str("sudo facelock setup --pam --remove"),
            },
        );
    }
    Ok(WriteRequest { action: WriteAction::Remove, request, remedy: "--yes" })
}

/// One service of the setup wizard, which has already checked for root and for
/// the module.
pub fn install_one_in<'a>(request: &'a PamRequest) -> (r: WriteRequest<'a>)
    ensures
        r.action == WriteAction::Add,
        r.request == request,
        r.remedy@ == "--yes"@,
{
    WriteRequest { action: WriteAction::Add, request, remedy: "--yes" }
}

/// Setting the module up takes root, and the module in one of its places; taking it
/// out again takes root alone, so that a line can go after the module went. Someone
/// who is not root is told so, whatever else is missing.
pub proof fn law_only_setting_up_needs_the_module(is_root: bool, module_there: Seq<bool>)
    requires
        module_there.len() == 3,
    ensures
        install_refusal(is_root, module_there) is None <==> is_root && exists|i: int|
            0 <= i < 3 && #[trigger] module_there[i],
        removal_refusal(is_root) is None <==> is_root,
        !is_root ==> (install_refusal(is_root, module_there) matches Some(
            PamMessage::PamRootRequired { command },
        ) && command == "sudo facelock setup --pam"@),
        !is_root ==> (removal_refusal(is_root) matches Some(
            PamMessage::PamRootRequired { command },
        ) && command == "sudo facelock setup --pam --remove"@),
{
}

} // verus!

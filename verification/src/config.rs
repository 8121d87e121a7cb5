//! Turning command line settings into a configuration.
use vstd::prelude::*;

use crate::auth::User;
use crate::error::{IoError, IoErrorKind, IoErrorView};
use crate::protocol::AuthMethods;
use crate::text::push_number;
#[allow(unused_imports)]
use crate::{auth, protocol, text};

verus! {

// ---------------------------------------------------------------- logging
/// The log filter that a number of `-v` flags stands for.
pub open spec fn level_text(verbosity: u8) -> Seq<char> {
    if verbosity == 1 {
        "merino=DEBUG"@
    } else if verbosity == 2 {
        "merino=TRACE"@
    } else {
        "merino=INFO"@
    }
}

/// Map the `-v`/`-vv` verbosity flags to a `RUST_LOG` filter.
pub fn log_level_for(verbosity: u8) -> (level: &'static str)
    ensures
        level@ == level_text(verbosity),
{
    match verbosity {
        1 => "merino=DEBUG",
        2 => "merino=TRACE",
        _ => "merino=INFO",
    }
}

/// The log filter to use, if any.
pub open spec fn filter_text(
    quiet: bool,
    explicit: Option<Seq<char>>,
    verbosity: u8,
) -> Option<Seq<char>> {
    if quiet {
        None
    } else if explicit is Some {
        explicit
    } else {
        Some(level_text(verbosity))
    }
}

/// Decide which log filter to use, if anything is to be logged at all.
///
/// An explicit `RUST_LOG` takes precedence over the verbosity flags, and the
/// quiet flag over both.
pub fn log_filter<'a>(quiet: bool, explicit: Option<&'a str>, verbosity: u8) -> (filter: Option<
    &'a str,
>)
    ensures
        match filter {
            None => quiet,
            Some(text) => !quiet && text@ == match explicit {
                Some(chosen) => chosen@,
                None => level_text(verbosity),
            },
        },
        ({
            let wanted = match explicit {
                Some(chosen) => Some(chosen@),
                None => None,
            };
            match filter {
                Some(text) => filter_text(quiet, wanted, verbosity) == Some(text@),
                None => filter_text(quiet, wanted, verbosity) is None,
            }
        }),
{
    if quiet {
        return None;
    }
    match explicit {
        Some(chosen) => Some(chosen),
        None => Some(log_level_for(verbosity)),
    }
}

// ---------------------------------------------------------------- authentication
/// The methods to advertise.
pub open spec fn advertised(no_auth: bool, users_file: bool) -> Seq<u8> {
    let open = protocol::method_byte(AuthMethods::NoAuth);
    let userpass = protocol::method_byte(AuthMethods::UserPass);
    if users_file {
        if no_auth {
            seq![open, userpass]
        } else {
            seq![userpass]
        }
    } else {
        seq![open]
    }
}

/// Decide which authentication methods to advertise.
///
/// A users file enables `USERPASS`, `--no-auth` enables `NOAUTH`, and when
/// neither is configured `NOAUTH` is used so a plain `merino` invocation still
/// starts a working proxy.
pub fn select_auth_methods(no_auth: bool, users_file: Option<&str>) -> (methods: Vec<u8>)
    ensures
        methods@ == advertised(no_auth, users_file is Some),
{
    let mut methods: Vec<u8> = Vec::new();
    if no_auth {
        methods.push(AuthMethods::NoAuth.code());
    }
    if users_file.is_some() {
        methods.push(AuthMethods::UserPass.code());
    }
    if methods.len() == 0 {
        methods.push(AuthMethods::NoAuth.code());
    }
    assert(methods@ =~= advertised(no_auth, users_file is Some));
    methods
}

/// A users file alone makes authentication mandatory: no offer of a client
/// leads to an unauthenticated session. Without one, no client is asked for
/// credentials.
pub proof fn law_users_file_requires_authentication(no_auth: bool, offered: Seq<u8>)
    ensures
        auth::chosen_method(advertised(false, true), offered) != AuthMethods::NoAuth,
        auth::chosen_method(advertised(no_auth, false), offered) != AuthMethods::UserPass,
        offered.contains(0x02) ==> auth::chosen_method(advertised(no_auth, true), offered)
            == AuthMethods::UserPass,
        offered.contains(0x00) ==> auth::chosen_method(advertised(no_auth, false), offered)
            == AuthMethods::NoAuth,
{
    assert(advertised(true, true)[1] == 0x02);
    assert(advertised(false, true)[0] == 0x02);
    assert(advertised(no_auth, false)[0] == 0x00);
}

// ---------------------------------------------------------------- users file
/// Whether a file with this mode can be accessed by its group or by others.
pub open spec fn too_open(mode: u32) -> bool {
    mode % 0o100 != 0
}

/// Whether a users file of this mode is accepted.
pub open spec fn acceptable(mode: u32, allow_insecure: bool) -> bool {
    allow_insecure || !too_open(mode)
}

/// What is wrong with a users file of this mode.
pub open spec fn too_open_error(mode: u32, path: Seq<char>) -> IoErrorView {
    IoErrorView {
        kind: IoErrorKind::PermissionDenied,
        message: "Permissions "@ + text::digits((mode % 0o1000) as nat, 8) + " for "@ + path
            + " are too open. It is recommended that your users file is NOT accessible by others. To override this check, set --allow-insecure"@,
    }
}

/// Reject a users file that its group or others can access, unless
/// `allow_insecure` is set. `path` is how the file is shown.
pub fn check_users_file(mode: u32, allow_insecure: bool, path: &str) -> (verdict: Result<
    (),
    IoError,
>)
    ensures
        match verdict {
            Ok(_) => allow_insecure || !too_open(mode),
            Err(error) => !allow_insecure && too_open(mode) && error@ == too_open_error(
                mode,
                path@,
            ),
        },
        verdict is Ok <==> acceptable(mode, allow_insecure),
{
    if mode % 0o100 != 0 && !allow_insecure {
        let mut message = "Permissions ".to_owned();
        push_number(&mut message, (mode % 0o1000) as u64, 8);
        message.append(" for ");
        message.append(path);
        message.append(
            " are too open. It is recommended that your users file is NOT accessible by others. To override this check, set --allow-insecure",
        );
        return Err(IoError { kind: IoErrorKind::PermissionDenied, message });
    }
    Ok(())
}

/// The error of a users file without users.
pub open spec fn no_users_error(path: Seq<char>) -> IoErrorView {
    IoErrorView {
        kind: IoErrorKind::InvalidData,
        message: "No users loaded from "@ + path + ". Check configuration."@,
    }
}

/// Reject a list of users that is empty. `path` is how the file it was loaded
/// from is shown.
pub fn require_users(users: Vec<User>, path: &str) -> (verdict: Result<Vec<User>, IoError>)
    ensures
        match verdict {
            Ok(accepted) => accepted == users && users@.len() > 0,
            Err(error) => users@.len() == 0 && error@ == no_users_error(path@),
        },
{
    if users.len() == 0 {
        let mut message = "No users loaded from ".to_owned();
        message.append(path);
        message.append(". Check configuration.");
        return Err(IoError { kind: IoErrorKind::InvalidData, message });
    }
    Ok(users)
}

/// Only one and two flags change the level: any other number of them stands
/// for the same level as none.
pub proof fn law_verbosity_levels(verbosity: u8)
    ensures
        level_text(0) == "merino=INFO"@,
        level_text(1) == "merino=DEBUG"@,
        level_text(2) == "merino=TRACE"@,
        verbosity != 1 && verbosity != 2 ==> level_text(verbosity) == level_text(0),
{
}

/// `USERPASS` is advertised exactly with a users file, `NOAUTH` exactly where
/// it is asked for or there is no users file, and nothing else ever is.
pub proof fn law_advertised_methods(no_auth: bool, users_file: bool, method: u8)
    ensures
        advertised(no_auth, users_file).contains(0x02) <==> users_file,
        advertised(no_auth, users_file).contains(0x00) <==> no_auth || !users_file,
        advertised(no_auth, users_file).contains(method) ==> method == 0x00 || method == 0x02,
        advertised(no_auth, users_file).no_duplicates(),
{
    let methods = advertised(no_auth, users_file);
    if users_file {
        assert(methods[methods.len() - 1] == 0x02);
    }
    if no_auth || !users_file {
        assert(methods[0] == 0x00);
    }
}

/// A file is too open exactly when one of the six permission bits of its group
/// and of others is set; neither its owner's bits nor its type matter.
pub proof fn law_open_files(mode: u32, other: u32)
    ensures
        too_open(mode) <==> mode & 0o077 != 0,
        too_open(mode) <==> (mode & 0o040 != 0 || mode & 0o020 != 0 || mode & 0o010 != 0 || mode
            & 0o004 != 0 || mode & 0o002 != 0 || mode & 0o001 != 0),
        mode & 0o077 == other & 0o077 ==> too_open(mode) == too_open(other),
{
    assert(mode % 0o100 == mode & 0o077) by (bit_vector);
    assert(other % 0o100 == other & 0o077) by (bit_vector);
    assert(mode & 0o077 != 0 <==> (mode & 0o040 != 0 || mode & 0o020 != 0 || mode & 0o010 != 0
        || mode & 0o004 != 0 || mode & 0o002 != 0 || mode & 0o001 != 0)) by (bit_vector);
}

/// The error about a users file shows its permission bits in octal and its
/// path, and says how to override it.
pub proof fn law_open_file_error(mode: u32, path: Seq<char>)
    ensures
        ({
            let error = too_open_error(mode, path);
            let shown = text::digits((mode & 0o777) as nat, 8);
            &&& error.kind == IoErrorKind::PermissionDenied
            &&& "Permissions "@.is_prefix_of(error.message)
            &&& shown.is_prefix_of(error.message.skip("Permissions "@.len() as int))
            &&& (" for "@ + path).is_prefix_of(
                error.message.skip(("Permissions "@.len() + shown.len()) as int),
            )
            &&& " are too open. It is recommended that your users file is NOT accessible by others. To override this check, set --allow-insecure"@
                == error.message.skip(
                ("Permissions "@.len() + shown.len() + " for "@.len() + path.len()) as int,
            )
        }),
{
    assert(mode % 0o1000 == mode & 0o777) by (bit_vector);
    let shown = text::digits((mode & 0o777) as nat, 8);
    let message = too_open_error(mode, path).message;
    assert(message.skip("Permissions "@.len() as int).take(shown.len() as int) =~= shown);
    assert(message.skip(("Permissions "@.len() + shown.len()) as int).take(
        (" for "@.len() + path.len()) as int,
    ) =~= " for "@ + path);
    assert(message.skip(
        ("Permissions "@.len() + shown.len() + " for "@.len() + path.len()) as int,
    )
        =~= " are too open. It is recommended that your users file is NOT accessible by others. To override this check, set --allow-insecure"@);
}

/// The error about a users file without users names its path.
pub proof fn law_no_users_error(path: Seq<char>)
    ensures
        ({
            let error = no_users_error(path);
            let before = "No users loaded from "@;
            &&& error.kind == IoErrorKind::InvalidData
            &&& before.is_prefix_of(error.message)
            &&& path.is_prefix_of(error.message.skip(before.len() as int))
            &&& error.message.skip((before.len() + path.len()) as int)
                == ". Check configuration."@
        }),
{
    let before = "No users loaded from "@;
    let message = no_users_error(path).message;
    assert(message.skip(before.len() as int).take(path.len() as int) =~= path);
    assert(message.skip((before.len() + path.len()) as int) =~= ". Check configuration."@);
}

/// Nothing is logged in quiet mode, whatever else is asked for; otherwise an
/// explicit filter is used as it is, whatever the flags are; and only without
/// one do the flags count.
pub proof fn law_log_filters(explicit: Option<Seq<char>>, verbosity: u8, other: u8)
    ensures
        filter_text(true, explicit, verbosity) is None,
        filter_text(false, explicit, verbosity) is Some,
        explicit is Some ==> filter_text(false, explicit, verbosity) == explicit,
        explicit is Some ==> filter_text(false, explicit, verbosity) == filter_text(
            false,
            explicit,
            other,
        ),
        filter_text(false, None, 1) == Some("merino=DEBUG"@),
        filter_text(false, None, 2) == Some("merino=TRACE"@),
        verbosity != 1 && verbosity != 2 ==> filter_text(false, None, verbosity) == Some(
            "merino=INFO"@,
        ),
{
}

/// A users file is accepted exactly when its group and others have no access
/// to it, or insecure files are allowed.
pub proof fn law_accepted_files(mode: u32, allow_insecure: bool)
    ensures
        acceptable(mode, allow_insecure) <==> allow_insecure || mode & 0o077 == 0,
{
    law_open_files(mode, mode);
}

} // verus!

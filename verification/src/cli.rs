//! The command line: `telepad [menu]`, `telepad sync [acct|all] [--avatars]`,
//! `telepad login <acct>`.

use vstd::prelude::*;

use crate::text::{owned, str_eq, views};

verus! {

/// A command of the program.
pub enum Command {
    /// Show the quick-switcher.
    Menu,
    /// Refresh the dialog cache of `target` ("all" for every account),
    /// downloading avatars when asked.
    Sync { target: String, avatars: bool },
    /// (Re)authenticate the account that `key` names.
    Login { key: String },
}

/// Why a command line is refused.
pub enum CommandError {
    /// `login` without an account.
    LoginNeedsAccount,
    /// A command that does not exist.
    Unknown(String),
}

/// The abstract value of a [`Command`].
pub enum CommandView {
    Menu,
    Sync { target: Seq<char>, avatars: bool },
    Login { key: Seq<char> },
}

/// The abstract value of a [`CommandError`].
pub enum CommandErrorView {
    LoginNeedsAccount,
    Unknown(Seq<char>),
}

impl View for Command {
    type V = CommandView;

    open spec fn view(&self) -> CommandView {
        match self {
            Command::Menu => CommandView::Menu,
            Command::Sync { target, avatars } => CommandView::Sync { target: target@, avatars: *avatars },
            Command::Login { key } => CommandView::Login { key: key@ },
        }
    }
}

impl View for CommandError {
    type V = CommandErrorView;

    open spec fn view(&self) -> CommandErrorView {
        match self {
            CommandError::LoginNeedsAccount => CommandErrorView::LoginNeedsAccount,
            CommandError::Unknown(s) => CommandErrorView::Unknown(s@),
        }
    }
}

/// The flag that asks `sync` to download avatars.
pub open spec fn avatars_flag() -> Seq<char> {
    "--avatars"@
}

/// The position of the first argument from `from` on that is not the
/// avatars flag.
pub open spec fn first_target(args: Seq<Seq<char>>, from: int) -> Option<int>
    decreases args.len() - from,
{
    if from >= args.len() {
        None
    } else if args[from] != avatars_flag() {
        Some(from)
    } else {
        first_target(args, from + 1)
    }
}

/// The command that the arguments (after the program name) ask for: none or
/// `menu` shows the menu; `login` needs an account; `sync` takes an
/// optional account (default "all") and the optional `--avatars` flag.
pub open spec fn spec_command(args: Seq<Seq<char>>) -> Result<CommandView, CommandErrorView> {
    if args.len() == 0 || args[0] == "menu"@ {
        Ok(CommandView::Menu)
    } else if args[0] == "login"@ {
        if args.len() >= 2 {
            Ok(CommandView::Login { key: args[1] })
        } else {
            Err(CommandErrorView::LoginNeedsAccount)
        }
    } else if args[0] == "sync"@ {
        Ok(
            CommandView::Sync {
                target: match first_target(args, 1) {
                    Some(i) => args[i],
                    None => "all"@,
                },
                avatars: exists|i: int| 1 <= i < args.len() && args[i] == avatars_flag(),
            },
        )
    } else {
        Err(CommandErrorView::Unknown(args[0]))
    }
}

/// Reads the command from the arguments that follow the program name.
pub fn parse_command(args: &Vec<String>) -> (r: Result<Command, CommandError>)
    ensures
        match r {
            Ok(c) => spec_command(views(args@)) == Ok::<CommandView, CommandErrorView>(c@),
            Err(e) => spec_command(views(args@)) == Err::<CommandView, CommandErrorView>(e@),
        },
{
    let ghost a = views(args@);
    if args.len() == 0 {
        return Ok(Command::Menu);
    }
    proof {
        assert(a[0] == args@[0]@);
    }
    if str_eq(args[0].as_str(), "menu") {
        return Ok(Command::Menu);
    }
    if str_eq(args[0].as_str(), "login") {
        if args.len() >= 2 {
            proof {
                assert(a[1] == args@[1]@);
            }
            return Ok(Command::Login { key: args[1].clone() });
        }
        return Err(CommandError::LoginNeedsAccount);
    }
    if str_eq(args[0].as_str(), "sync") {
        let n = args.len();
        let mut target: Option<usize> = None;
        let mut avatars = false;
        let mut i: usize = 1;
        while i < n
            invariant
                n == args@.len(),
                a == views(args@),
                1 <= i <= n,
                avatars == exists|k: int| 1 <= k < i && a[k] == avatars_flag(),
                match target {
                    Some(t) => 1 <= t < i && first_target(a, 1) == Some(t as int),
                    None => first_target(a, 1) == first_target(a, i as int),
                },
            decreases n - i,
        {
            proof {
                assert(a[i as int] == args@[i as int]@);
            }
            if str_eq(args[i].as_str(), "--avatars") {
                avatars = true;
            } else if target.is_none() {
                target = Some(i);
            }
            i = i + 1;
        }
        let t = match target {
            Some(k) => {
                proof {
                    assert(a[k as int] == args@[k as int]@);
                }
                args[k].clone()
            },
            None => owned("all"),
        };
        return Ok(Command::Sync { target: t, avatars });
    }
    Err(CommandError::Unknown(args[0].clone()))
}

proof fn lemma_first_target(args: Seq<Seq<char>>, from: int)
    requires
        from >= 1,
    ensures
        match first_target(args, from) {
            Some(j) => from <= j < args.len() && args[j] != avatars_flag() && forall|k: int|
                from <= k < j ==> #[trigger] args[k] == avatars_flag(),
            None => forall|k: int| from <= k < args.len() ==> #[trigger] args[k] == avatars_flag(),
        },
    decreases args.len() - from,
{
    if from < args.len() && args[from] == avatars_flag() {
        lemma_first_target(args, from + 1);
    }
}

/// What the command line asks for: no argument or `menu` shows the menu;
/// `login` takes the account named right after it and fails without one;
/// `sync` downloads avatars exactly when `--avatars` stands anywhere after
/// it, and syncs the first argument after it that is not that flag, or
/// "all" when there is none; any other first word is refused as unknown.
pub proof fn lemma_command_meaning(args: Seq<Seq<char>>)
    ensures
        args.len() == 0 ==> spec_command(args) == Ok::<CommandView, CommandErrorView>(
            CommandView::Menu,
        ),
        args.len() > 0 && args[0] == "menu"@ ==> spec_command(args) == Ok::<
            CommandView,
            CommandErrorView,
        >(CommandView::Menu),
        args.len() >= 2 && args[0] == "login"@ ==> spec_command(args) == Ok::<
            CommandView,
            CommandErrorView,
        >(CommandView::Login { key: args[1] }),
        args.len() == 1 && args[0] == "login"@ ==> spec_command(args) == Err::<
            CommandView,
            CommandErrorView,
        >(CommandErrorView::LoginNeedsAccount),
        args.len() > 0 && args[0] == "sync"@ ==> (spec_command(args) matches Ok(
            CommandView::Sync { target, avatars },
        ) && (avatars <==> exists|i: int| 1 <= i < args.len() && args[i] == "--avatars"@) && ((
        exists|j: int|
            1 <= j < args.len() && args[j] != "--avatars"@ && target == args[j] && forall|k: int|
                1 <= k < j ==> #[trigger] args[k] == "--avatars"@) || (target == "all"@
            && forall|k: int| 1 <= k < args.len() ==> #[trigger] args[k] == "--avatars"@))),
        args.len() > 0 && args[0] != "menu"@ && args[0] != "login"@ && args[0] != "sync"@
            ==> spec_command(args) == Err::<CommandView, CommandErrorView>(
            CommandErrorView::Unknown(args[0]),
        ),
{
    reveal_strlit("menu");
    reveal_strlit("login");
    reveal_strlit("sync");
    assert("login"@ != "menu"@) by {
        assert("login"@.len() != "menu"@.len());
    }
    assert("sync"@ != "menu"@) by {
        assert("sync"@[0] != "menu"@[0]);
    }
    assert("sync"@ != "login"@) by {
        assert("sync"@.len() != "login"@.len());
    }
    lemma_first_target(args, 1);
}

} // verus!

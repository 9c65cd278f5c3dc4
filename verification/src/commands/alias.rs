//! The `alias` command.

use vstd::prelude::*;

use crate::text::{chars_equal, chars_of, join, join_strings, number, parse_number};

verus! {

/// How many aliases a page shows.
pub const PAGE_SIZE: u64 = 20;

/// What a call of the alias command asks for.
#[derive(Debug)]
pub enum AliasRequest {
    /// The page of the list with this number, counted from zero.
    List(u64),
    Help,
    /// The arguments make no request: the usage is to be shown.
    Usage,
    Remove(String),
    /// The page of the list was no number.
    InvalidListPage,
    /// The page with this number, counted from zero, of the aliases that
    /// match the term.
    Search(String, u64),
    /// The page of the search was no number.
    InvalidSearchPage,
    Create { name: String, commands: String },
}

/// What a call of the alias command asks for, as plain text.
pub enum AliasIntent {
    List(u64),
    Help,
    Usage,
    Remove(Seq<char>),
    InvalidListPage,
    Search(Seq<char>, u64),
    InvalidSearchPage,
    Create { name: Seq<char>, commands: Seq<char> },
}

impl View for AliasRequest {
    type V = AliasIntent;

    open spec fn view(&self) -> AliasIntent {
        match self {
            AliasRequest::List(page) => AliasIntent::List(*page),
            AliasRequest::Help => AliasIntent::Help,
            AliasRequest::Usage => AliasIntent::Usage,
            AliasRequest::Remove(name) => AliasIntent::Remove(name@),
            AliasRequest::InvalidListPage => AliasIntent::InvalidListPage,
            AliasRequest::Search(term, page) => AliasIntent::Search(term@, *page),
            AliasRequest::InvalidSearchPage => AliasIntent::InvalidSearchPage,
            AliasRequest::Create { name, commands } => AliasIntent::Create {
                name: name@,
                commands: commands@,
            },
        }
    }
}

/// The page, counted from zero, that a user means by `page`, counted from
/// one.
pub open spec fn zero_based(page: u64) -> u64 {
    if page > 0 {
        (page - 1) as u64
    } else {
        0
    }
}

/// What the arguments of the alias command ask for.
pub open spec fn intent(args: Seq<Seq<char>>) -> AliasIntent {
    if args.len() == 0 {
        AliasIntent::List(0)
    } else if args.len() == 1 {
        if args[0] == "list"@ {
            AliasIntent::List(0)
        } else if args[0] == "help"@ {
            AliasIntent::Help
        } else {
            AliasIntent::Usage
        }
    } else if args.len() == 2 && args[0] == "remove"@ {
        AliasIntent::Remove(args[1])
    } else if args.len() == 2 && args[0] == "list"@ {
        match number(args[1]) {
            Some(page) => AliasIntent::List(zero_based(page)),
            None => AliasIntent::InvalidListPage,
        }
    } else if args.len() == 2 && args[0] == "search"@ {
        AliasIntent::Search(args[1], 0)
    } else if args.len() == 2 {
        AliasIntent::Create { name: args[0], commands: args[1] }
    } else if args.len() == 3 && args[0] == "search"@ {
        match number(args[2]) {
            Some(page) => AliasIntent::Search(args[1], zero_based(page)),
            None => AliasIntent::InvalidSearchPage,
        }
    } else if args[0] == "create"@ {
        AliasIntent::Create { name: args[1], commands: join(args.skip(2), " "@) }
    } else {
        AliasIntent::Create { name: args[0], commands: join(args.skip(1), " "@) }
    }
}

/// How many pages `total` aliases fill.
pub open spec fn pages(total: u64) -> int {
    (total + PAGE_SIZE - 1) / (PAGE_SIZE as int)
}

fn is_word(text: &String, word: &str) -> (same: bool)
    ensures
        same == (text@ == word@),
{
    let chars = chars_of(text.as_str());
    chars_equal(&chars, word)
}

fn from_one(page: u64) -> (index: u64)
    ensures
        index == zero_based(page),
{
    if page > 0 {
        page - 1
    } else {
        0
    }
}

fn rest_joined(args: &Vec<String>, from: usize) -> (text: String)
    requires
        from <= args@.len(),
    ensures
        text@ == join(args.deep_view().skip(from as int), " "@),
{
    let mut rest: Vec<String> = Vec::new();
    let mut i: usize = from;
    proof {
        assert(rest.deep_view() =~= args.deep_view().subrange(from as int, from as int));
    }
    while i < args.len()
        invariant
            from <= i <= args@.len(),
            rest.deep_view() == args.deep_view().subrange(from as int, i as int),
        decreases args@.len() - i,
    {
        let ghost before = rest.deep_view();
        rest.push(args[i].clone());
        proof {
            assert(rest.deep_view() =~= before.push(args@[i as int]@));
            assert(rest.deep_view() =~= args.deep_view().subrange(from as int, i + 1));
        }
        i += 1;
    }
    proof {
        assert(args.deep_view().subrange(from as int, args@.len() as int) =~= args.deep_view().skip(
            from as int,
        ));
    }
    join_strings(&rest, " ")
}

/// Creates, lists, searches and removes aliases.
#[derive(Debug, Default, Clone, Copy)]
pub struct AliasCommand;

impl AliasCommand {
    /// What the command is for.
    pub open spec fn describe() -> Seq<char> {
        "Create or list command aliases. Usage: !alias <name> <commands...> or !alias list"@
    }

    /// Reads what the arguments of the command ask for.
    pub fn request(&self, args: &Vec<String>) -> (asked: AliasRequest)
        ensures
            asked@ == intent(args.deep_view()),
    {
        let n = args.len();
        if n == 0 {
            AliasRequest::List(0)
        } else if n == 1 {
            if is_word(&args[0], "list") {
                AliasRequest::List(0)
            } else if is_word(&args[0], "help") {
                AliasRequest::Help
            } else {
                AliasRequest::Usage
            }
        } else if n == 2 && is_word(&args[0], "remove") {
            AliasRequest::Remove(args[1].clone())
        } else if n == 2 && is_word(&args[0], "list") {
            match parse_number(args[1].as_str()) {
                Some(page) => AliasRequest::List(from_one(page)),
                None => AliasRequest::InvalidListPage,
            }
        } else if n == 2 && is_word(&args[0], "search") {
            AliasRequest::Search(args[1].clone(), 0)
        } else if n == 2 {
            AliasRequest::Create { name: args[0].clone(), commands: args[1].clone() }
        } else if n == 3 && is_word(&args[0], "search") {
            match parse_number(args[2].as_str()) {
                Some(page) => AliasRequest::Search(args[1].clone(), from_one(page)),
                None => AliasRequest::InvalidSearchPage,
            }
        } else if is_word(&args[0], "create") {
            AliasRequest::Create { name: args[1].clone(), commands: rest_joined(args, 2) }
        } else {
            AliasRequest::Create { name: args[0].clone(), commands: rest_joined(args, 1) }
        }
    }

    /// How many pages `total` aliases fill, twenty to a page.
    pub fn total_pages(total: u64) -> (count: u64)
        ensures
            count == pages(total),
    {
        total / PAGE_SIZE + if total % PAGE_SIZE > 0 {
            1
        } else {
            0
        }
    }

    /// What the command is for, in a line.
    pub fn description(&self) -> (text: &'static str)
        ensures
            text@ == Self::describe(),
    {
        "Create or list command aliases. Usage: !alias <name> <commands...> or !alias list"
    }
}

} // verus!

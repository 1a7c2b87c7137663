//! The shell commands of a run: which are composed, and in which order
//! they are handed to the shell.

use vstd::prelude::*;
use vstd::string::*;
use crate::aggregate::AggregatedDependencies;
use crate::manifest::NameLists;
use crate::names::names;

verus! {

/// What a run is asked to do with the merged lists.
#[derive(Debug, Clone, Copy, PartialEq, Eq, Structural)]
pub enum CliCommand {
    List,
    Install,
}

/// Which kinds of packages an install covers.
#[derive(Debug, Clone, Copy, PartialEq, Eq, Structural)]
pub enum DependencyType {
    Both,
    Apt,
    Pip,
}

/// The commands of one run.
#[derive(Debug)]
pub struct InstallPlan {
    /// Refreshes the index of system packages; runs before every install.
    pub update: Option<String>,
    /// The install commands, in the order to run them. An empty one stands
    /// for a kind of which there is nothing to install.
    pub installs: Vec<String>,
}

/// A plan as the texts of its commands.
pub struct PlanView {
    pub update: Option<Seq<char>>,
    pub installs: Seq<Seq<char>>,
}

impl View for InstallPlan {
    type V = PlanView;

    open spec fn view(&self) -> PlanView {
        PlanView {
            update: match self.update {
                Some(u) => Some(u@),
                None => None,
            },
            installs: names(self.installs@),
        }
    }
}

impl PlanView {
    /// The commands in the order in which they go to the shell: the update
    /// before every install.
    pub open spec fn steps(self) -> Seq<Seq<char>> {
        match self.update {
            Some(u) => seq![u] + self.installs,
            None => self.installs,
        }
    }
}

/// The names with `separator` between each two neighbours.
pub open spec fn joined(names: Seq<Seq<char>>, separator: Seq<char>) -> Seq<char>
    decreases names.len(),
{
    if names.len() == 0 {
        Seq::empty()
    } else if names.len() == 1 {
        names[0]
    } else {
        joined(names.drop_last(), separator) + separator + names.last()
    }
}

/// The command that installs `names` with the installer called by `prefix`:
/// the prefix and the names with a space between them, or nothing at all
/// where there are no names.
pub open spec fn install_text(prefix: Seq<char>, names: Seq<Seq<char>>) -> Seq<char> {
    if names.len() == 0 {
        Seq::empty()
    } else {
        prefix + joined(names, " "@)
    }
}

/// The call of the system installer, up to the names.
pub open spec fn system_prefix() -> Seq<char> {
    "sudo apt install -y "@
}

/// The call of the language installer, up to the names.
pub open spec fn language_prefix() -> Seq<char> {
    "pip install "@
}

/// The command that refreshes the index of system packages.
pub open spec fn update_text() -> Seq<char> {
    "sudo apt update"@
}

/// The update command of a run: there is one exactly if it was asked for,
/// whatever the run does besides.
pub open spec fn planned_update(apt_update: bool) -> Option<Seq<char>> {
    if apt_update {
        Some(update_text())
    } else {
        None
    }
}

/// The install commands of a run: none unless the run installs; then the
/// system command, the language command, or the system command followed by
/// the language command, as the scope says.
pub open spec fn planned_installs(
    merged: NameLists,
    command: CliCommand,
    dependency_type: DependencyType,
) -> Seq<Seq<char>> {
    match command {
        CliCommand::List => Seq::empty(),
        CliCommand::Install => match dependency_type {
            DependencyType::Both => seq![
                install_text(system_prefix(), merged.system),
                install_text(language_prefix(), merged.language),
            ],
            DependencyType::Apt => seq![install_text(system_prefix(), merged.system)],
            DependencyType::Pip => seq![install_text(language_prefix(), merged.language)],
        },
    }
}

/// The commands of a run.
pub open spec fn planned_commands(
    merged: NameLists,
    command: CliCommand,
    dependency_type: DependencyType,
    apt_update: bool,
) -> PlanView {
    PlanView {
        update: planned_update(apt_update),
        installs: planned_installs(merged, command, dependency_type),
    }
}

/// Joins the names with `separator` between them.
pub fn join_names(list: &Vec<String>, separator: &str) -> (text: String)
    ensures
        text@ == joined(names(list@), separator@),
{
    let mut text = String::new();
    let n: usize = list.len();
    let mut i: usize = 0;
    while i < n
        invariant
            i <= n,
            n == list@.len(),
            text@ == joined(names(list@).take(i as int), separator@),
        decreases n - i,
    {
        proof {
            let now = names(list@).take(i + 1);
            assert(now.drop_last() =~= names(list@).take(i as int));
            assert(now.last() == list@[i as int]@);
        }
        if i > 0 {
            text.append(separator);
        }
        text.append(list[i].as_str());
        proof {
            if i == 0 {
                assert(text@ =~= list@[0]@);
            }
        }
        i += 1;
    }
    proof {
        assert(names(list@).take(n as int) =~= names(list@));
    }
    text
}

/// Composes the command that installs `list` with the installer called by `prefix`.
pub fn install_command(prefix: &str, list: &Vec<String>) -> (text: String)
    ensures
        text@ == install_text(prefix@, names(list@)),
{
    if list.len() > 0 {
        let mut text = prefix.to_owned();
        let all = join_names(list, " ");
        text.append(all.as_str());
        text
    } else {
        String::new()
    }
}

/// Plans the commands of a run over the merged lists.
pub fn plan(
    merged: &AggregatedDependencies,
    command: CliCommand,
    dependency_type: DependencyType,
    apt_update: bool,
) -> (planned: InstallPlan)
    ensures
        planned@ == planned_commands(merged@, command, dependency_type, apt_update),
{
    let update = if apt_update {
        Some("sudo apt update".to_owned())
    } else {
        None
    };
    let mut installs: Vec<String> = Vec::new();
    match command {
        CliCommand::List => {},
        CliCommand::Install => {
            match dependency_type {
                DependencyType::Both => {
                    installs.push(install_command("sudo apt install -y ", &merged.apt));
                    installs.push(install_command("pip install ", &merged.pip));
                },
                DependencyType::Apt => {
                    installs.push(install_command("sudo apt install -y ", &merged.apt));
                },
                DependencyType::Pip => {
                    installs.push(install_command("pip install ", &merged.pip));
                },
            }
        },
    }
    let planned = InstallPlan { update, installs };
    proof {
        assert(planned@.installs =~= planned_installs(merged@, command, dependency_type));
    }
    planned
}

impl InstallPlan {
    /// The commands in the order in which they go to the shell.
    pub fn steps(self) -> (commands: Vec<String>)
        ensures
            names(commands@) == self@.steps(),
    {
        let mut commands: Vec<String> = Vec::new();
        let mut installs = self.installs;
        match self.update {
            Some(u) => {
                commands.push(u);
            },
            None => {},
        }
        let ghost head = commands@;
        let ghost tail = installs@;
        commands.append(&mut installs);
        proof {
            assert(names(commands@) =~= names(head) + names(tail));
        }
        commands
    }
}

/// Whether a command is handed to a shell at all: an empty one is not.
pub fn needs_shell(command: &str) -> (r: bool)
    ensures
        r == (command@.len() > 0),
{
    !command.is_empty()
}

} // verus!

use vstd::prelude::*;
use crate::category::Category;
use crate::layout::{Generated, ModuleStep};
use crate::strfmt::{pascal_to_snake, snake_of};
use crate::text::{begins_with, chars_of, contains, occurs, push_all, split, split_at};
use crate::text::{lemma_split_nonempty, starts_with, trim, trimmed, views};

verus! {

/// The module file of the component tree.
pub const COMPONENT_FILE: &'static str = "src/component/mod.rs";

/// What the module file of the component tree declares.
pub const COMPONENT_MODULES: &'static str =
    "pub mod service;\npub mod model;\npub mod contract;\npub mod message;\npub mod state;\npub mod protocol;\n";

/// The module file of the controller tree.
pub const CONTROLLER_FILE: &'static str = "src/controller/mod.rs";

/// What the module file of the controller tree declares.
pub const CONTROLLER_MODULES: &'static str =
    "pub mod aggregator;\npub mod handler;\npub mod adapter;\npub mod server;\npub mod mediator;\n";

/// The root file of the generated library.
pub const LIBRARY_FILE: &'static str = "src/lib.rs";

/// What the root file of the generated library declares.
pub const LIBRARY_MODULES: &'static str = "pub mod component;\npub mod controller;\n";

/// The folder that holds the components of a category.
pub open spec fn folder_of(category: Category) -> Seq<char> {
    match category {
        Category::Service => "src/component/service"@,
        Category::Model => "src/component/model"@,
        Category::Contract => "src/component/contract"@,
        Category::Mediator => "src/controller/mediator"@,
        Category::Aggregator => "src/controller/aggregator"@,
        Category::Handler => "src/controller/handler"@,
        Category::Adapter => "src/controller/adapter"@,
        Category::Server => "src/controller/server"@,
        Category::Message => "src/component/message"@,
        Category::Protocol => "src/component/protocol"@,
        Category::State => "src/component/state"@,
        Category::Assembler => "src/bin"@,
    }
}

/// The folder that holds the components of a category.
pub fn folder(category: Category) -> (path: &'static str)
    ensures
        path@ == folder_of(category),
{
    match category {
        Category::Service => "src/component/service",
        Category::Model => "src/component/model",
        Category::Contract => "src/component/contract",
        Category::Mediator => "src/controller/mediator",
        Category::Aggregator => "src/controller/aggregator",
        Category::Handler => "src/controller/handler",
        Category::Adapter => "src/controller/adapter",
        Category::Server => "src/controller/server",
        Category::Message => "src/component/message",
        Category::Protocol => "src/component/protocol",
        Category::State => "src/component/state",
        Category::Assembler => "src/bin",
    }
}

/// The module file of a category's folder. Assemblers are programs: their
/// folder has none.
pub fn module_file(category: Category) -> (file: Option<String>)
    ensures
        category == Category::Assembler ==> file is None,
        category != Category::Assembler ==> file is Some && file->0@ == folder_of(category)
            + "/mod.rs"@,
{
    match category {
        Category::Assembler => None,
        _ => {
            let mut file = String::from_str(folder(category));
            file.append("/mod.rs");
            Some(file)
        },
    }
}

/// The categories whose folder and module file a new project starts with,
/// in the order in which they are made.
pub fn modules() -> (categories: Vec<Category>)
    ensures
        categories@ == seq![
            Category::Service,
            Category::Model,
            Category::Contract,
            Category::Mediator,
            Category::Aggregator,
            Category::Handler,
            Category::Adapter,
            Category::Server,
            Category::Message,
            Category::Protocol,
            Category::State,
        ],
{
    let mut categories: Vec<Category> = Vec::new();
    categories.push(Category::Service);
    categories.push(Category::Model);
    categories.push(Category::Contract);
    categories.push(Category::Mediator);
    categories.push(Category::Aggregator);
    categories.push(Category::Handler);
    categories.push(Category::Adapter);
    categories.push(Category::Server);
    categories.push(Category::Message);
    categories.push(Category::Protocol);
    categories.push(Category::State);
    proof {
        assert(categories@ =~= seq![
            Category::Service,
            Category::Model,
            Category::Contract,
            Category::Mediator,
            Category::Aggregator,
            Category::Handler,
            Category::Adapter,
            Category::Server,
            Category::Message,
            Category::Protocol,
            Category::State,
        ]);
    }
    categories
}

/// The skeleton of a struct named `name`, with its constructor.
pub open spec fn struct_text(name: Seq<char>) -> Seq<char> {
    "pub struct "@ + name + " {\n}\n\n"@ + "impl "@ + name + " {\n\t"@
        + "pub fn new() -> Self {\n\t\t"@ + name + " {}\n\t}\n"@ + "}\n"@
}

/// The skeleton of an enum named `name`.
pub open spec fn enum_text(name: Seq<char>) -> Seq<char> {
    "pub enum "@ + name + " {\n}\n\n"@
}

/// The skeleton of a trait named `name`.
pub open spec fn trait_text(name: Seq<char>) -> Seq<char> {
    "pub trait "@ + name + " {\n}\n"@
}

/// The skeleton of a program.
pub open spec fn assembler_text() -> Seq<char> {
    "#[tokio::main]\nasync fn main() -> Result<(), Box<dyn std::error::Error>> {\n\tOk(())\n}"@
}

/// Writes the skeleton of a struct named `name`.
pub fn write_struct(writer: &mut String, name: &str)
    ensures
        final(writer)@ == old(writer)@ + struct_text(name@),
{
    writer.append("pub struct ");
    writer.append(name);
    writer.append(" {\n}\n\n");
    writer.append("impl ");
    writer.append(name);
    writer.append(" {\n\t");
    writer.append("pub fn new() -> Self {\n\t\t");
    writer.append(name);
    writer.append(" {}\n\t}\n");
    writer.append("}\n");
    proof {
        assert(writer@ =~= old(writer)@ + struct_text(name@));
    }
}

/// Writes the skeleton of an enum named `name`.
pub fn write_enum(writer: &mut String, name: &str)
    ensures
        final(writer)@ == old(writer)@ + enum_text(name@),
{
    writer.append("pub enum ");
    writer.append(name);
    writer.append(" {\n}\n\n");
    proof {
        assert(writer@ =~= old(writer)@ + enum_text(name@));
    }
}

/// Writes the skeleton of a trait named `name`.
pub fn write_trait(writer: &mut String, name: &str)
    ensures
        final(writer)@ == old(writer)@ + trait_text(name@),
{
    writer.append("pub trait ");
    writer.append(name);
    writer.append(" {\n}\n");
    proof {
        assert(writer@ =~= old(writer)@ + trait_text(name@));
    }
}

/// Writes the skeleton of a program.
pub fn write_assembler(writer: &mut String)
    ensures
        final(writer)@ == old(writer)@ + assembler_text(),
{
    writer.append(
        "#[tokio::main]\nasync fn main() -> Result<(), Box<dyn std::error::Error>> {\n\tOk(())\n}",
    );
}

/// What a file of the given category holds for a component named `name`:
/// a trait for a contract, an enum for a message or a state, a program for
/// an assembler, and a struct for everything else.
pub open spec fn content_of(category: Category, name: Seq<char>) -> Seq<char> {
    match category {
        Category::Contract => trait_text(name),
        Category::Message | Category::State => enum_text(name),
        Category::Assembler => assembler_text(),
        _ => struct_text(name),
    }
}

/// Writes what a file of the given category holds.
pub fn write_content(writer: &mut String, category: Category, name: &str)
    ensures
        final(writer)@ == old(writer)@ + content_of(category, name@),
{
    match category {
        Category::Contract => write_trait(writer, name),
        Category::Message => write_enum(writer, name),
        Category::State => write_enum(writer, name),
        Category::Assembler => write_assembler(writer),
        _ => write_struct(writer, name),
    }
}

/// A line of the package manifest after the package was renamed: a line
/// that begins with `name` gives the new name, any other line stays; each
/// ends with a line feed.
pub open spec fn renamed_line(line: Seq<char>, name: Seq<char>) -> Seq<char> {
    if begins_with(line, "name"@) {
        "name = \""@ + name + "\"\n"@
    } else {
        line + "\n"@
    }
}

/// The given lines of the package manifest after the package was renamed.
pub open spec fn renamed_lines(lines: Seq<Seq<char>>, name: Seq<char>) -> Seq<char>
    decreases lines.len(),
{
    if lines.len() == 0 {
        Seq::<char>::empty()
    } else {
        renamed_lines(lines.drop_last(), name) + renamed_line(lines.last(), name)
    }
}

/// The package manifest `manifest` with the package renamed to `name`.
/// The manifest is read line by line, a line feed parting two lines.
pub open spec fn renamed(manifest: Seq<char>, name: Seq<char>) -> Seq<char> {
    renamed_lines(split(manifest, '\n'), name)
}

/// Renames the package of a package manifest.
pub fn rename_package(manifest: &str, name: &str) -> (result: String)
    ensures
        result@ == renamed(manifest@, name@),
{
    let lines = split_at(&chars_of(manifest), '\n');
    let key = chars_of("name");
    let mut result = String::new();
    let mut i: usize = 0;
    proof {
        assert(views(lines@).take(0) =~= Seq::<Seq<char>>::empty());
    }
    while i < lines.len()
        invariant
            i <= lines@.len(),
            key@ == "name"@,
            result@ == renamed_lines(views(lines@).take(i as int), name@),
        decreases lines@.len() - i,
    {
        proof {
            assert(views(lines@).take(i + 1).drop_last() =~= views(lines@).take(i as int));
            assert(views(lines@).take(i + 1).last() == lines@[i as int]@);
        }
        if starts_with(&lines[i], &key) {
            result.append("name = \"");
            result.append(name);
            result.append("\"\n");
            proof {
                assert(result@ =~= renamed_lines(views(lines@).take(i as int), name@)
                    + renamed_line(lines@[i as int]@, name@));
            }
        } else {
            push_all(&mut result, &lines[i]);
            result.append("\n");
            proof {
                assert(result@ =~= renamed_lines(views(lines@).take(i as int), name@)
                    + renamed_line(lines@[i as int]@, name@));
            }
        }
        i += 1;
    }
    proof {
        assert(views(lines@).take(i as int) =~= views(lines@));
    }
    result
}

/// The contents of a module file once it declares `module`: the
/// declaration is added at the end unless the name stands somewhere in the
/// file already.
pub open spec fn declared(contents: Seq<char>, module: Seq<char>) -> Seq<char> {
    if occurs(contents, module) {
        contents
    } else {
        contents + "\npub mod "@ + module + ";\n"@
    }
}

/// Brings the contents of a module file up to date with `module`.
pub fn declare_module(contents: &str, module: &str) -> (result: String)
    ensures
        result@ == declared(contents@, module@),
{
    let mut result = String::from_str(contents);
    if !contains(&chars_of(contents), &chars_of(module)) {
        result.append("\npub mod ");
        result.append(module);
        result.append(";\n");
        proof {
            assert(result@ =~= contents@ + "\npub mod "@ + module@ + ";\n"@);
        }
    }
    result
}

/// The directory reached from `prefix` through the first `depth` of `dirs`.
pub open spec fn directory(prefix: Seq<char>, dirs: Seq<Seq<char>>, depth: int) -> Seq<char>
    decreases depth,
{
    if depth <= 0 {
        prefix
    } else {
        directory(prefix, dirs, depth - 1) + "/"@ + dirs[depth - 1]
    }
}

/// The directories that `path` names: the pieces between its slashes, the
/// slashes at its two ends set aside.
pub open spec fn dirs_of(path: Seq<char>) -> Seq<Seq<char>> {
    split(trimmed(path, '/'), '/')
}

/// The module file at `depth` below `prefix`, and the module that it has
/// to declare: the next directory of the path, or at the end of the path
/// the module `leaf` itself.
pub open spec fn module_step(
    prefix: Seq<char>,
    dirs: Seq<Seq<char>>,
    leaf: Seq<char>,
    depth: int,
) -> (Seq<char>, Seq<char>) {
    (
        directory(prefix, dirs, depth) + "/mod.rs"@,
        if depth < dirs.len() {
            dirs[depth]
        } else {
            leaf
        },
    )
}

/// The module files to bring up to date so that the component `name` at
/// `path` below `prefix` is reachable: from the module file of `prefix`
/// down to that of the component's own directory, each with the module it
/// has to declare.
pub fn check_module(prefix: &str, path: &str, name: &str) -> (steps: Vec<ModuleStep>)
    ensures
        steps@.len() == dirs_of(path@).len() + 1,
        forall|i: int|
            0 <= i < steps@.len() ==> (#[trigger] steps@[i].file@, steps@[i].module@)
                == module_step(prefix@, dirs_of(path@), snake_of(name@), i),
{
    let dirs = split_at(&trim(&chars_of(path), '/'), '/');
    let snake_name = pascal_to_snake(name);
    let mut current = String::from_str(prefix);
    let mut steps: Vec<ModuleStep> = Vec::new();
    let mut i: usize = 0;
    proof {
        lemma_split_nonempty(trimmed(path@, '/'), '/');
    }
    loop
        invariant
            views(dirs@) == dirs_of(path@),
            snake_name@ == snake_of(name@),
            i <= dirs@.len(),
            current@ == directory(prefix@, views(dirs@), i as int),
            steps@.len() == i,
            forall|k: int|
                0 <= k < steps@.len() ==> (#[trigger] steps@[k].file@, steps@[k].module@)
                    == module_step(prefix@, views(dirs@), snake_name@, k),
        decreases dirs@.len() - i,
    {
        let mut file = current.clone();
        file.append("/mod.rs");
        let at_leaf = i == dirs.len();
        let mut module = String::new();
        if at_leaf {
            module.append(snake_name.as_str());
        } else {
            push_all(&mut module, &dirs[i]);
        }
        proof {
            assert(module@ =~= module_step(prefix@, views(dirs@), snake_name@, i as int).1);
        }
        steps.push(ModuleStep { file, module });
        if at_leaf {
            return steps;
        }
        current.append("/");
        push_all(&mut current, &dirs[i]);
        i += 1;
    }
}

/// The entry that registers the program `name` at `path` below `prefix` in
/// the package manifest.
pub open spec fn bin_entry(prefix: Seq<char>, path: Seq<char>, name: Seq<char>) -> Seq<char> {
    "\n[[bin]]\nname = \""@ + snake_of(name) + "\"\npath = \""@ + prefix + "/"@ + path + "/"@
        + snake_of(name) + ".rs\"\n"@
}

/// Registers the program `name` at `path` below `prefix` at the end of the
/// package manifest.
pub fn register_bin(manifest: &mut String, prefix: &str, path: &str, name: &str)
    ensures
        final(manifest)@ == old(manifest)@ + bin_entry(prefix@, path@, name@),
{
    let snake_name = pascal_to_snake(name);
    manifest.append("\n[[bin]]\nname = \"");
    manifest.append(snake_name.as_str());
    manifest.append("\"\npath = \"");
    manifest.append(prefix);
    manifest.append("/");
    manifest.append(path);
    manifest.append("/");
    manifest.append(snake_name.as_str());
    manifest.append(".rs\"\n");
    proof {
        assert(manifest@ =~= old(manifest)@ + bin_entry(prefix@, path@, name@));
    }
}

/// What is left to do once a component's file is written.
#[derive(Debug, PartialEq, Eq, Structural, Clone, Copy)]
pub enum FollowUp {
    /// Register the file as a program in the package manifest.
    RegisterBin,
    /// Bring the module files above the file up to date.
    CheckModule,
}

/// An assembler is registered as a program; every other component is
/// declared in the module files above it.
pub fn follow_up(category: Category) -> (next: FollowUp)
    ensures
        next == (if category == Category::Assembler {
            FollowUp::RegisterBin
        } else {
            FollowUp::CheckModule
        }),
{
    match category {
        Category::Assembler => FollowUp::RegisterBin,
        _ => FollowUp::CheckModule,
    }
}

/// The file of the component `name` of the given category at `path`: it
/// lies in the directory `path` of the category's folder, is named after
/// the component in snake case, and holds the category's skeleton.
pub fn generate_file(name: &str, path: &str, category: Category) -> (generated: Generated)
    ensures
        generated.directory@ == folder_of(category) + "/"@ + path@,
        generated.file@ == folder_of(category) + "/"@ + path@ + "/"@ + snake_of(name@) + ".rs"@,
        generated.content@ == content_of(category, name@),
{
    let mut directory = String::from_str(folder(category));
    directory.append("/");
    directory.append(path);
    let mut file = directory.clone();
    file.append("/");
    file.append(pascal_to_snake(name).as_str());
    file.append(".rs");
    let mut content = String::new();
    write_content(&mut content, category, name);
    proof {
        assert(content@ =~= content_of(category, name@));
    }
    Generated { directory, file, content }
}

} // verus!

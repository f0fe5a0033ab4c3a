use vstd::prelude::*;
use crate::category::Category;
use crate::layout::Generated;

verus! {

/// The folder of the construction container in a new project.
pub const PROVIDER_FOLDER: &'static str = "gen/provider";

/// The file that holds the construction container in a new project.
pub const PROVIDER_FILE: &'static str = "gen/provider/provider.go";

/// The source of the construction container that every new project gets.
pub const PROVIDER_CODE: &'static str = "package provider

import (
	\"context\"
	\"reflect\"
	\"strings\"
	\"sync\"
)

type ErrNotAFunction struct{}

func (e ErrNotAFunction) Error() string {
	return \"not a function\"
}

func analyzeConstructor(constructFunction any) ([]reflect.Type, []reflect.Type, error) {
	if reflect.TypeOf(constructFunction).Kind() != reflect.Func {
		return nil, nil, ErrNotAFunction{}
	}

	constructor := reflect.ValueOf(constructFunction)
	var args []reflect.Type

	for i := 0; i < constructor.Type().NumIn(); i++ {
		args = append(args, constructor.Type().In(i))
	}

	var returns []reflect.Type

	for i := 0; i < constructor.Type().NumOut(); i++ {
		returns = append(returns, constructor.Type().Out(i))
	}

	return args, returns, nil
}

type Provider struct {
	constructors map[reflect.Type]map[reflect.Value]struct{}
	container    map[reflect.Type]any
	lock         sync.RWMutex
}

func New() *Provider {
	return &Provider{
		constructors: make(map[reflect.Type]map[reflect.Value]struct{}),
		container:    make(map[reflect.Type]any),
		lock:         sync.RWMutex{},
	}
}

func (p *Provider) Register(constructFunction ...any) error {
	p.lock.Lock()
	defer p.lock.Unlock()
	for _, con := range constructFunction {
		if err := p.register(con); err != nil {
			return err
		}
	}
	return nil
}

func (p *Provider) register(constructFunction any) error {
	args, _, err := analyzeConstructor(constructFunction)
	if err != nil {
		return err
	}

	for _, arg := range args {
		if _, ok := p.constructors[arg]; !ok {
			p.constructors[arg] = make(map[reflect.Value]struct{})
		}
		p.constructors[arg][reflect.ValueOf(constructFunction)] = struct{}{}
	}

	return nil
}

func Get[T any](provider *Provider) (T, bool) {
	provider.lock.RLock()
	defer provider.lock.RUnlock()
	v, ok := provider.container[reflect.TypeOf(*new(T))].(T)
	return v, ok
}

type ErrInvalidFunctionReturn struct{}

func (e ErrInvalidFunctionReturn) Error() string {
	return \"invalid function return\"
}

func Run[T any](provider *Provider, function any) (r T, err error) {
	provider.lock.RLock()
	defer provider.lock.RUnlock()

	args, rets, err := analyzeConstructor(function)
	if err != nil {
		return r, err
	}

	if len(rets) != 2 || rets[1].String() != \"error\" || rets[0] != reflect.TypeOf(*new(T)) {
		return r, ErrInvalidFunctionReturn{}
	}

	reflectArgs := make([]reflect.Value, len(args))
	for i, arg := range args {
		v, ok := provider.container[arg]
		if !ok {
			return r, ErrNotProvided{arg}
		}
		reflectArgs[i] = reflect.ValueOf(v)
	}

	reflectReturns := reflect.ValueOf(function).Call(reflectArgs)

	if !reflectReturns[1].IsNil() {
		return r, reflectReturns[1].Interface().(error)
	}

	return reflectReturns[0].Interface().(T), nil
}

func JustRun(provider *Provider, function any) error {
	provider.lock.RLock()
	defer provider.lock.RUnlock()

	args, rets, err := analyzeConstructor(function)
	if err != nil {
		return err
	}

	if len(rets) != 1 || rets[0].String() != \"error\" {
		return ErrInvalidFunctionReturn{}
	}

	reflectArgs := make([]reflect.Value, len(args))
	for i, arg := range args {
		v, ok := provider.container[arg]
		if !ok {
			return ErrNotProvided{arg}
		}
		reflectArgs[i] = reflect.ValueOf(v)
	}

	reflectReturns := reflect.ValueOf(function).Call(reflectArgs)

	if !reflectReturns[0].IsNil() {
		return reflectReturns[0].Interface().(error)
	}

	return nil
}

func Update(provider *Provider, function any) error {
	provider.lock.Lock()
	defer provider.lock.Unlock()

	args, _, err := analyzeConstructor(function)
	if err != nil {
		return err
	}

	reflectArgs := make([]reflect.Value, len(args))
	for i, arg := range args {
		v, ok := provider.container[arg]
		if !ok {
			return ErrNotProvided{arg}
		}
		reflectArgs[i] = reflect.ValueOf(v)
	}

	results := reflect.ValueOf(function).Call(reflectArgs)

	for _, result := range results {
		provider.container[result.Type()] = result.Interface()
	}

	return nil
}

type ErrNotProvided struct {
	Type reflect.Type
}

func (e ErrNotProvided) Error() string {
	return \"not provided: \" + e.Type.String()
}

type ErrInvalidConstructorReturn struct{}

func (e ErrInvalidConstructorReturn) Error() string {
	return \"invalid constructor return\"
}

type ErrMaybeCyclicDependency struct {
	cons []reflect.Value
}

func (e ErrMaybeCyclicDependency) Error() string {
	sb := strings.Builder{}
	sb.WriteString(\"maybe cyclic dependency: \")
	for i, con := range e.cons {
		sb.WriteString(con.String())
		if i != len(e.cons)-1 {
			sb.WriteString(\", \")
		}
	}

	return sb.String()
}

func getContextType() reflect.Type {
	return reflect.TypeOf((*context.Context)(nil)).Elem()
}

func (p *Provider) Construct(ctx context.Context) error {
	p.lock.Lock()
	defer p.lock.Unlock()

	p.container[getContextType()] = ctx
	count := 0
	for len(p.constructors) > 0 {
		for arg, constructors := range p.constructors {
		ConsLoop:
			for con := range constructors {
				args := make([]reflect.Value, con.Type().NumIn())
				for i := 0; i < con.Type().NumIn(); i++ {
					at := con.Type().In(i)
					v, ok := p.container[at]
					if !ok {
						continue ConsLoop
					}
					args[i] = reflect.ValueOf(v)
				}

				returns := con.Call(args)

				for _, ret := range returns {
					if ret.Type().Kind().String() == \"error\" {
						if !ret.IsNil() {
							return ret.Interface().(error)
						}
					}

					p.container[ret.Type()] = ret.Interface()
				}

				count++

				delete(p.constructors[arg], con)
			}

			if len(p.constructors[arg]) == 0 {
				delete(p.constructors, arg)
			}
		}

		if count == 0 {
			return ErrMaybeCyclicDependency{}
		}
	}

	return nil
}
";

/// The folder that holds the components of a category. Assemblers have
/// none.
pub open spec fn folder_of(category: Category) -> Option<Seq<char>> {
    match category {
        Category::Service => Some("./lib/service"@),
        Category::Model => Some("./lib/model"@),
        Category::Contract => Some("./lib/contract"@),
        Category::Mediator => Some("./internal/mediator"@),
        Category::Aggregator => Some("./internal/aggregator"@),
        Category::Handler => Some("./internal/handler"@),
        Category::Adapter => Some("./internal/adapter"@),
        Category::Server => Some("./internal/server"@),
        Category::Message => Some("./lib/message"@),
        Category::Protocol => Some("./lib/protocol"@),
        Category::State => Some("./lib/state"@),
        Category::Assembler => None,
    }
}

/// The folder that holds the components of a category, if it has one.
pub fn folder(category: Category) -> (path: Option<&'static str>)
    ensures
        match path {
            Some(text) => folder_of(category) == Some(text@),
            None => folder_of(category) is None,
        },
{
    match category {
        Category::Service => Some("./lib/service"),
        Category::Model => Some("./lib/model"),
        Category::Contract => Some("./lib/contract"),
        Category::Mediator => Some("./internal/mediator"),
        Category::Aggregator => Some("./internal/aggregator"),
        Category::Handler => Some("./internal/handler"),
        Category::Adapter => Some("./internal/adapter"),
        Category::Server => Some("./internal/server"),
        Category::Message => Some("./lib/message"),
        Category::Protocol => Some("./lib/protocol"),
        Category::State => Some("./lib/state"),
        Category::Assembler => None,
    }
}

/// The categories whose folder a new project starts with, in the order in
/// which they are made.
pub fn modules() -> (categories: Vec<Category>)
    ensures
        categories@ == seq![
            Category::Service,
            Category::Model,
            Category::Contract,
            Category::Mediator,
            Category::Aggregator,
            Category::Handler,
            Category::Adapter,
            Category::Server,
            Category::Message,
            Category::Protocol,
        ],
{
    let mut categories: Vec<Category> = Vec::new();
    categories.push(Category::Service);
    categories.push(Category::Model);
    categories.push(Category::Contract);
    categories.push(Category::Mediator);
    categories.push(Category::Aggregator);
    categories.push(Category::Handler);
    categories.push(Category::Adapter);
    categories.push(Category::Server);
    categories.push(Category::Message);
    categories.push(Category::Protocol);
    proof {
        assert(categories@ =~= seq![
            Category::Service,
            Category::Model,
            Category::Contract,
            Category::Mediator,
            Category::Aggregator,
            Category::Handler,
            Category::Adapter,
            Category::Server,
            Category::Message,
            Category::Protocol,
        ]);
    }
    categories
}

/// The skeleton of a package with a struct named `name` and its
/// constructor.
pub open spec fn struct_text(name: Seq<char>) -> Seq<char> {
    "package "@ + name + "\n\t\ntype "@ + name + " struct {\n}\n\nfunc New() *"@ + name
        + " {\n\treturn &"@ + name + "{}\n}\n\n"@
}

/// The skeleton of a package with an interface named `name` and its check.
pub open spec fn interface_text(name: Seq<char>) -> Seq<char> {
    "package "@ + name + "\n\ntype "@ + name + " interface {\n}\n\nfunc Check(i "@ + name
        + ") {}\n\n"@
}

/// Writes the skeleton of a package with a struct named `name`.
pub fn write_struct(writer: &mut String, name: &str)
    ensures
        final(writer)@ == old(writer)@ + struct_text(name@),
{
    writer.append("package ");
    writer.append(name);
    writer.append("\n\t\ntype ");
    writer.append(name);
    writer.append(" struct {\n}\n\nfunc New() *");
    writer.append(name);
    writer.append(" {\n\treturn &");
    writer.append(name);
    writer.append("{}\n}\n\n");
    proof {
        assert(writer@ =~= old(writer)@ + struct_text(name@));
    }
}

/// Writes the skeleton of a package with an interface named `name`.
pub fn write_interface(writer: &mut String, name: &str)
    ensures
        final(writer)@ == old(writer)@ + interface_text(name@),
{
    writer.append("package ");
    writer.append(name);
    writer.append("\n\ntype ");
    writer.append(name);
    writer.append(" interface {\n}\n\nfunc Check(i ");
    writer.append(name);
    writer.append(") {}\n\n");
    proof {
        assert(writer@ =~= old(writer)@ + interface_text(name@));
    }
}

/// What a file of the given category holds for a component named `name`:
/// an interface for a contract, a struct for everything else.
pub open spec fn content_of(category: Category, name: Seq<char>) -> Seq<char> {
    if category == Category::Contract {
        interface_text(name)
    } else {
        struct_text(name)
    }
}

/// The lower-case form of a text, by the rules of Unicode.
pub uninterp spec fn lowercase_of(text: Seq<char>) -> Seq<char>;

/// `str::to_lowercase`: the result is the lower-case form of the text.
#[verifier::external_body]
fn to_lowercase(text: &str) -> (lower: String)
    ensures
        lower@ == lowercase_of(text@),
{
    text.to_lowercase()
}

/// Whether `generated` is the file of the component `name` of the given
/// category at `path`, its name in lower case being `lower`: the file lies
/// in a directory of its own, named `lower`, in the directory `path` of the
/// category's folder; it is named `lower` too, and holds the category's
/// skeleton. A category without a folder has no file.
pub open spec fn placed(
    generated: Option<Generated>,
    name: Seq<char>,
    lower: Seq<char>,
    path: Seq<char>,
    category: Category,
) -> bool {
    match folder_of(category) {
        None => generated is None,
        Some(folder) => {
            &&& generated is Some
            &&& generated->0.directory@ == folder + "/"@ + path + "/"@ + lower
            &&& generated->0.file@ == folder + "/"@ + path + "/"@ + lower + "/"@ + lower
                + ".go"@
            &&& generated->0.content@ == content_of(category, name)
        },
    }
}

/// The file of the component `name` of the given category at `path`, given
/// the component's name in lower case.
pub fn place(name: &str, lower: &str, path: &str, category: Category) -> (generated: Option<
    Generated,
>)
    ensures
        placed(generated, name@, lower@, path@, category),
{
    match folder(category) {
        None => None,
        Some(folder) => {
            let mut directory = String::from_str(folder);
            directory.append("/");
            directory.append(path);
            directory.append("/");
            directory.append(lower);
            let mut file = directory.clone();
            file.append("/");
            file.append(lower);
            file.append(".go");
            let mut content = String::new();
            match category {
                Category::Contract => write_interface(&mut content, name),
                _ => write_struct(&mut content, name),
            }
            proof {
                assert(content@ =~= content_of(category, name@));
            }
            Some(Generated { directory, file, content })
        },
    }
}

/// The file of the component `name` of the given category at `path`.
pub fn generate_file(name: &str, path: &str, category: Category) -> (generated: Option<
    Generated,
>)
    ensures
        placed(generated, name@, lowercase_of(name@), path@, category),
{
    let lower = to_lowercase(name);
    place(name, lower.as_str(), path, category)
}

} // verus!

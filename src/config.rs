use vstd::prelude::*;
use crate::color::{ColorStop, default_gradient, default_stops, parse_gradient, stops_of};
use crate::json::{Json, Number, same_text};
use crate::param::{Param, ParamModel, Variable, bind, bound, constant, decimal};

verus! {

/// The fields of a definition that hold expressions.
#[derive(Clone, Copy, Debug, PartialEq, Eq, Structural)]
pub enum Field {
    T,
    Iter,
    Scale,
    X,
    Y,
    R,
    I,
}

/// A definition whose field does not compile.
#[derive(Clone, Copy, Debug, PartialEq, Eq, Structural)]
pub struct ConfigError {
    pub definition: usize,
    pub field: Field,
}

#[derive(Debug)]
pub struct Mandelbrot {
    pub t: Param,
    pub iter: Param,
    pub scale: Param,
    pub x: Param,
    pub y: Param,
}

pub struct MandelbrotModel {
    pub t: ParamModel,
    pub iter: ParamModel,
    pub scale: ParamModel,
    pub x: ParamModel,
    pub y: ParamModel,
}

impl View for Mandelbrot {
    type V = MandelbrotModel;

    open spec fn view(&self) -> MandelbrotModel {
        MandelbrotModel { t: self.t@, iter: self.iter@, scale: self.scale@, x: self.x@, y: self.y@ }
    }
}

#[derive(Debug)]
pub struct Julia {
    pub t: Param,
    pub iter: Param,
    pub r: Param,
    pub i: Param,
}

pub struct JuliaModel {
    pub t: ParamModel,
    pub iter: ParamModel,
    pub r: ParamModel,
    pub i: ParamModel,
}

impl View for Julia {
    type V = JuliaModel;

    open spec fn view(&self) -> JuliaModel {
        JuliaModel { t: self.t@, iter: self.iter@, r: self.r@, i: self.i@ }
    }
}

#[derive(Debug)]
pub enum Algorithm {
    Inert,
    Mandelbrot(Mandelbrot),
    Julia(Julia),
}

pub enum AlgorithmModel {
    Inert,
    Mandelbrot(MandelbrotModel),
    Julia(JuliaModel),
}

impl View for Algorithm {
    type V = AlgorithmModel;

    open spec fn view(&self) -> AlgorithmModel {
        match self {
            Algorithm::Inert => AlgorithmModel::Inert,
            Algorithm::Mandelbrot(m) => AlgorithmModel::Mandelbrot(m@),
            Algorithm::Julia(j) => AlgorithmModel::Julia(j@),
        }
    }
}

#[derive(Debug)]
pub struct Definition {
    pub gradient: Option<Vec<ColorStop>>,
    pub algorithm: Algorithm,
}

pub struct DefinitionModel {
    pub gradient: Option<Seq<ColorStop>>,
    pub algorithm: AlgorithmModel,
}

impl View for Definition {
    type V = DefinitionModel;

    open spec fn view(&self) -> DefinitionModel {
        DefinitionModel {
            gradient: match &self.gradient {
                Some(g) => Some(g@),
                None => None,
            },
            algorithm: self.algorithm@,
        }
    }
}

#[derive(Debug)]
pub struct Config {
    pub gradient: Vec<ColorStop>,
    pub definitions: Vec<Definition>,
}

pub struct ConfigModel {
    pub gradient: Seq<ColorStop>,
    pub definitions: Seq<DefinitionModel>,
}

impl View for Config {
    type V = ConfigModel;

    open spec fn view(&self) -> ConfigModel {
        ConfigModel { gradient: self.gradient@, definitions: self.definitions@.map_values(|d: Definition| d@) }
    }
}

pub open spec fn mandelbrot_default() -> MandelbrotModel {
    MandelbrotModel {
        t: ParamModel::Constant(decimal(0, 0)),
        iter: ParamModel::Constant(decimal(70, 0)),
        scale: ParamModel::Constant(decimal(25, -1i16)),
        x: ParamModel::Constant(decimal(7, -1i16)),
        y: ParamModel::Constant(decimal(0, 0)),
    }
}

pub open spec fn julia_default() -> JuliaModel {
    JuliaModel {
        t: ParamModel::Identity,
        iter: ParamModel::Constant(decimal(60, 0)),
        r: ParamModel::Identity,
        i: ParamModel::Identity,
    }
}

/// The Mandelbrot parameters that an entry configures, or the first field that does not compile.
pub open spec fn mandelbrot_of(e: Json) -> Result<MandelbrotModel, Field> {
    let d = mandelbrot_default();
    let t = bound(e.spec_get("t"@), Variable::Tick, true, d.t);
    let iter = bound(e.spec_get("iter"@), Variable::T, true, d.iter);
    let scale = bound(e.spec_get("scale"@), Variable::T, true, d.scale);
    let x = bound(e.spec_get("x"@), Variable::T, false, d.x);
    let y = bound(e.spec_get("y"@), Variable::T, false, d.y);
    if t is None {
        Err(Field::T)
    } else if iter is None {
        Err(Field::Iter)
    } else if scale is None {
        Err(Field::Scale)
    } else if x is None {
        Err(Field::X)
    } else if y is None {
        Err(Field::Y)
    } else {
        Ok(MandelbrotModel { t: t->Some_0, iter: iter->Some_0, scale: scale->Some_0, x: x->Some_0, y: y->Some_0 })
    }
}

/// The Julia parameters that an entry configures, or the first field that does not compile.
pub open spec fn julia_of(e: Json) -> Result<JuliaModel, Field> {
    let d = julia_default();
    let t = bound(e.spec_get("t"@), Variable::Tick, true, d.t);
    let iter = bound(e.spec_get("iter"@), Variable::T, true, d.iter);
    let r = bound(e.spec_get("r"@), Variable::T, false, d.r);
    let i = bound(e.spec_get("i"@), Variable::T, false, d.i);
    if t is None {
        Err(Field::T)
    } else if iter is None {
        Err(Field::Iter)
    } else if r is None {
        Err(Field::R)
    } else if i is None {
        Err(Field::I)
    } else {
        Ok(JuliaModel { t: t->Some_0, iter: iter->Some_0, r: r->Some_0, i: i->Some_0 })
    }
}

/// The algorithm that an entry names; any name but the two known ones gives `None`.
pub open spec fn algorithm_of(e: Json) -> Result<AlgorithmModel, Field> {
    match e.spec_get("algorithm"@) {
        Some(Json::Text(name)) => if name@ == "mandelbrot"@ {
            match mandelbrot_of(e) {
                Ok(m) => Ok(AlgorithmModel::Mandelbrot(m)),
                Err(f) => Err(f),
            }
        } else if name@ == "julia"@ {
            match julia_of(e) {
                Ok(j) => Ok(AlgorithmModel::Julia(j)),
                Err(f) => Err(f),
            }
        } else {
            Ok(AlgorithmModel::Inert)
        },
        _ => Ok(AlgorithmModel::Inert),
    }
}

/// The gradient override of an entry: set exactly when its `gradient` is a list.
pub open spec fn gradient_of(e: Json) -> Option<Seq<ColorStop>> {
    match e.spec_get("gradient"@) {
        Some(Json::Array(g)) => Some(stops_of(g@)),
        _ => None,
    }
}

pub open spec fn definition_of(e: Json) -> Result<DefinitionModel, Field> {
    match algorithm_of(e) {
        Ok(a) => Ok(DefinitionModel { gradient: gradient_of(e), algorithm: a }),
        Err(f) => Err(f),
    }
}

/// The definitions of a list of entries, or the error of the first entry that fails.
pub open spec fn definitions_of(entries: Seq<Json>) -> Result<Seq<DefinitionModel>, ConfigError>
    decreases entries.len(),
{
    if entries.len() == 0 {
        Ok(seq![])
    } else {
        match definitions_of(entries.drop_last()) {
            Err(e) => Err(e),
            Ok(ds) => match definition_of(entries.last()) {
                Ok(d) => Ok(ds.push(d)),
                Err(f) => Err(ConfigError { definition: (entries.len() - 1) as usize, field: f }),
            },
        }
    }
}

/// The configuration that a table describes: the list under `define`, if it is one.
pub open spec fn config_of(table: Json) -> Result<ConfigModel, ConfigError> {
    let entries = match table.spec_get("define"@) {
        Some(Json::Array(v)) => v@,
        _ => seq![],
    };
    match definitions_of(entries) {
        Ok(ds) => Ok(ConfigModel { gradient: default_stops(), definitions: ds }),
        Err(e) => Err(e),
    }
}

impl Mandelbrot {
    pub fn new() -> (r: Mandelbrot)
        ensures
            r@ == mandelbrot_default(),
    {
        Mandelbrot {
            t: constant(0, 0),
            iter: constant(70, 0),
            scale: constant(25, -1),
            x: constant(7, -1),
            y: constant(0, 0),
        }
    }

    /// The parameters that an entry configures.
    pub fn parse(e: &Json) -> (r: Result<Mandelbrot, Field>)
        ensures
            r is Ok <==> mandelbrot_of(*e) is Ok,
            r matches Ok(m) ==> mandelbrot_of(*e) == Ok::<MandelbrotModel, Field>(m@),
            r matches Err(f) ==> mandelbrot_of(*e) == Err::<MandelbrotModel, Field>(f),
    {
        let d = Mandelbrot::new();
        let t = match bind(e, "t", Variable::Tick, true, d.t) {
            Some(p) => p,
            None => return Err(Field::T),
        };
        let iter = match bind(e, "iter", Variable::T, true, d.iter) {
            Some(p) => p,
            None => return Err(Field::Iter),
        };
        let scale = match bind(e, "scale", Variable::T, true, d.scale) {
            Some(p) => p,
            None => return Err(Field::Scale),
        };
        let x = match bind(e, "x", Variable::T, false, d.x) {
            Some(p) => p,
            None => return Err(Field::X),
        };
        let y = match bind(e, "y", Variable::T, false, d.y) {
            Some(p) => p,
            None => return Err(Field::Y),
        };
        Ok(Mandelbrot { t, iter, scale, x, y })
    }
}

impl Julia {
    pub fn new() -> (r: Julia)
        ensures
            r@ == julia_default(),
    {
        Julia { t: Param::Identity, iter: constant(60, 0), r: Param::Identity, i: Param::Identity }
    }

    /// The parameters that an entry configures.
    pub fn parse(e: &Json) -> (r: Result<Julia, Field>)
        ensures
            r is Ok <==> julia_of(*e) is Ok,
            r matches Ok(j) ==> julia_of(*e) == Ok::<JuliaModel, Field>(j@),
            r matches Err(f) ==> julia_of(*e) == Err::<JuliaModel, Field>(f),
    {
        let d = Julia::new();
        let t = match bind(e, "t", Variable::Tick, true, d.t) {
            Some(p) => p,
            None => return Err(Field::T),
        };
        let iter = match bind(e, "iter", Variable::T, true, d.iter) {
            Some(p) => p,
            None => return Err(Field::Iter),
        };
        let r = match bind(e, "r", Variable::T, false, d.r) {
            Some(p) => p,
            None => return Err(Field::R),
        };
        let i = match bind(e, "i", Variable::T, false, d.i) {
            Some(p) => p,
            None => return Err(Field::I),
        };
        Ok(Julia { t, iter, r, i })
    }
}


/// An error among the first `k` entries is the error of the whole list.
proof fn lemma_first_error_stays(entries: Seq<Json>, k: int)
    requires
        0 <= k <= entries.len(),
        definitions_of(entries.take(k)) is Err,
    ensures
        definitions_of(entries) == definitions_of(entries.take(k)),
    decreases entries.len() - k,
{
    if k == entries.len() {
        assert(entries.take(k) =~= entries);
    } else {
        assert(entries.take(k + 1).drop_last() =~= entries.take(k));
        lemma_first_error_stays(entries, k + 1);
    }
}

impl Definition {
    /// The definition that one entry of `define` describes.
    pub fn parse(e: &Json) -> (r: Result<Definition, Field>)
        ensures
            r is Ok <==> definition_of(*e) is Ok,
            r matches Ok(d) ==> definition_of(*e) == Ok::<DefinitionModel, Field>(d@),
            r matches Err(f) ==> definition_of(*e) == Err::<DefinitionModel, Field>(f),
    {
        let gradient = match e.get("gradient") {
            Some(Json::Array(g)) => Some(parse_gradient(g)),
            _ => None,
        };
        let algorithm = match e.get("algorithm") {
            Some(Json::Text(name)) => {
                if same_text(name.as_str(), "mandelbrot") {
                    match Mandelbrot::parse(e) {
                        Ok(m) => Algorithm::Mandelbrot(m),
                        Err(f) => return Err(f),
                    }
                } else if same_text(name.as_str(), "julia") {
                    match Julia::parse(e) {
                        Ok(j) => Algorithm::Julia(j),
                        Err(f) => return Err(f),
                    }
                } else {
                    Algorithm::Inert
                }
            },
            _ => Algorithm::Inert,
        };
        Ok(Definition { gradient, algorithm })
    }
}

/// A list of entries that configures gives one definition per entry, each the one
/// that its entry describes.
pub proof fn lemma_definitions_each(entries: Seq<Json>)
    requires
        definitions_of(entries) is Ok,
    ensures
        definitions_of(entries)->Ok_0.len() == entries.len(),
        forall|j: int| 0 <= j < entries.len() ==> definition_of(#[trigger] entries[j])
            == Ok::<DefinitionModel, Field>(definitions_of(entries)->Ok_0[j]),
    decreases entries.len(),
{
    if entries.len() > 0 {
        let rest = entries.drop_last();
        lemma_definitions_each(rest);
        assert forall|j: int| 0 <= j < entries.len() implies definition_of(#[trigger] entries[j])
            == Ok::<DefinitionModel, Field>(definitions_of(entries)->Ok_0[j]) by {
            if j < entries.len() - 1 {
                assert(rest[j] == entries[j]);
            }
        }
    }
}

/// The gradient of definition `j` of a configuration is that of entry `j` of `define`:
/// the colours of its list, in order, entries that give none dropped; unset when it
/// has no list.
pub proof fn lemma_config_gradient(table: Json, j: int)
    requires
        config_of(table) is Ok,
        table.spec_get("define"@) matches Some(Json::Array(v)) && 0 <= j < v@.len(),
    ensures
        table.spec_get("define"@) matches Some(Json::Array(v)) && config_of(table)->Ok_0.definitions[j].gradient
            == (match v@[j].spec_get("gradient"@) {
            Some(Json::Array(g)) => Some(stops_of(g@)),
            _ => None,
        }),
{
    let v = table.spec_get("define"@)->Some_0->Array_0;
    lemma_definitions_each(v@);
    assert(definition_of(v@[j]) is Ok);
}

/// A Mandelbrot entry whose `iter` and `scale` are numbers gets constant functions of
/// those numbers.
pub proof fn lemma_config_numbers(table: Json, j: int, n: Number, m: Number)
    requires
        config_of(table) is Ok,
        table.spec_get("define"@) matches Some(Json::Array(v)) && 0 <= j < v@.len()
            && (v@[j].spec_get("algorithm"@) matches Some(Json::Text(a)) && a@ == "mandelbrot"@)
            && v@[j].spec_get("iter"@) == Some(Json::Number(n))
            && v@[j].spec_get("scale"@) == Some(Json::Number(m)),
    ensures
        config_of(table)->Ok_0.definitions[j].algorithm matches AlgorithmModel::Mandelbrot(mb)
            && mb.iter == ParamModel::Constant(n) && mb.scale == ParamModel::Constant(m),
{
    let v = table.spec_get("define"@)->Some_0->Array_0;
    lemma_definitions_each(v@);
    assert(definition_of(v@[j]) is Ok);
}

impl Default for Config {
    /// The default gradient and no definitions.
    fn default() -> (r: Config)
        ensures
            r@.gradient == default_stops(),
            r@.definitions.len() == 0,
    {
        let r = Config { gradient: default_gradient(), definitions: Vec::new() };
        assert(r@.definitions =~= Seq::<DefinitionModel>::empty());
        r
    }
}

impl Config {
    /// The configuration that a table describes, or the first field of a definition
    /// whose expression does not compile.
    pub fn new(table: &Json) -> (r: Result<Config, ConfigError>)
        ensures
            r is Ok <==> config_of(*table) is Ok,
            r matches Ok(c) ==> config_of(*table) == Ok::<ConfigModel, ConfigError>(c@),
            r matches Err(e) ==> config_of(*table) == Err::<ConfigModel, ConfigError>(e),
    {
        let mut definitions: Vec<Definition> = Vec::new();
        match table.get("define") {
            Some(Json::Array(entries)) => {
                let mut i: usize = 0;
                while i < entries.len()
                    invariant
                        i <= entries@.len(),
                        table.spec_get("define"@) matches Some(Json::Array(v)) && v@ == entries@,
                        definitions_of(entries@.take(i as int)) is Ok,
                        definitions_of(entries@.take(i as int))->Ok_0
                            == definitions@.map_values(|d: Definition| d@),
                    decreases entries.len() - i,
                {
                    assert(entries@.take(i + 1).drop_last() =~= entries@.take(i as int));
                    assert(entries@.take(i + 1).last() == entries@[i as int]);
                    match Definition::parse(&entries[i]) {
                        Ok(d) => {
                            let ghost before = definitions@;
                            definitions.push(d);
                            assert(definitions@.map_values(|d: Definition| d@)
                                =~= before.map_values(|d: Definition| d@).push(d@));
                        },
                        Err(f) => {
                            let e = ConfigError { definition: i, field: f };
                            proof {
                                lemma_first_error_stays(entries@, i + 1);
                            }
                            return Err(e);
                        },
                    }
                    i = i + 1;
                }
                assert(entries@.take(i as int) =~= entries@);
            },
            _ => {
                assert(definitions@.map_values(|d: Definition| d@) =~= seq![]);
            },
        }
        let mut config = Config::default();
        config.definitions = definitions;
        Ok(config)
    }
}


/// A number in a field that takes numbers binds to the constant of that number.
pub proof fn lemma_number_is_constant(n: Number, variable: Variable, default: ParamModel)
    ensures
        bound(Some(Json::Number(n)), variable, true, default) == Some(ParamModel::Constant(n)),
{
}

/// An empty `define` list configures no definitions, with the default gradient.
pub proof fn lemma_empty_define(table: Json)
    requires
        table.spec_get("define"@) matches Some(Json::Array(v)) && v@.len() == 0,
    ensures
        config_of(table) matches Ok(c) && c.definitions.len() == 0 && c.gradient == default_stops(),
{
}

} // verus!

//! Validación de un grafo de material y resolución de sus enlaces, antes de
//! generar nada.
//!
//! Todo lo que puede fallar en un grafo falla aquí, de una vez: ciclos, tipos
//! incompatibles, entradas sin resolver, nodos inexistentes y ausencia de
//! salida. El resultado es un orden topológico de los nodos alcanzables desde
//! la salida y, para cada uno, de dónde sale cada entrada.

use std::collections::HashMap;

use vstd::prelude::*;

use crate::material::{
    compatibles, nombres_de_entradas, salida_de, tipo_salida, tipos_de_entradas, Link, MaterialError,
    MaterialGraph, Node, NodeKind, SocketType, Value,
};

verus! {

broadcast use vstd::std_specs::hash::group_hash_axioms;

/// De dónde sale el valor de una entrada ya resuelta.
#[derive(Clone, Copy, PartialEq, Eq, Structural, Debug)]
pub enum Entrada {
    /// Enlazada a la salida de otro nodo, por id.
    Nodo(u32),
    /// Sin enlace: el valor por defecto declarado en el nodo.
    Literal(Value),
}

/// El grafo comprobado: los nodos usados en orden topológico (dependencias
/// antes que dependientes) y, en el mismo orden, el origen de cada una de sus
/// entradas, en el orden de `NodeKind::inputs`.
#[derive(Clone, Debug)]
pub struct Analisis {
    pub orden: Vec<u32>,
    pub entradas: Vec<Vec<Entrada>>,
}

/// Un error de análisis como valor.
pub enum Fallo {
    Ciclo(u32),
    FaltaEntrada { nodo: u32, entrada: Seq<char> },
    Tipos { de: SocketType, a: SocketType },
    Desconocido(u32),
    SinSalida,
    NoSoportado(Seq<char>),
}

pub open spec fn fallo_de(e: MaterialError) -> Fallo {
    match e {
        MaterialError::Cycle(n) => Fallo::Ciclo(n),
        MaterialError::MissingInput { node, input } => Fallo::FaltaEntrada { nodo: node, entrada: input@ },
        MaterialError::TypeMismatch { from, to } => Fallo::Tipos { de: from, a: to },
        MaterialError::UnknownNode(n) => Fallo::Desconocido(n),
        MaterialError::NoOutput => Fallo::SinSalida,
        MaterialError::Unsupported(s) => Fallo::NoSoportado(s@),
    }
}

/// El tipo de un valor literal.
pub open spec fn tipo_de_valor(v: Value) -> SocketType {
    match v {
        Value::Float(..) => SocketType::Float,
        Value::Vec2(..) => SocketType::Vec2,
        Value::Vec3(..) => SocketType::Vec3,
        Value::Color(..) => SocketType::Color,
    }
}

/// El nodo con id `id`: el último de la lista con ese id (el que queda al
/// indexarlos por id), o `-1`.
pub open spec fn indice_nodo(ns: Seq<Node>, id: u32) -> int
    decreases ns.len(),
{
    if ns.len() == 0 {
        -1
    } else if ns.last().id == id {
        ns.len() - 1
    } else {
        indice_nodo(ns.drop_last(), id)
    }
}

/// El primer enlace desde `k` que llega a la entrada `nombre` de `to`, o el
/// número de enlaces.
pub open spec fn indice_enlace(ls: Seq<Link>, to: u32, nombre: Seq<char>, k: int) -> int
    decreases ls.len() - k,
{
    if k < 0 || k >= ls.len() {
        ls.len() as int
    } else if ls[k].to == to && ls[k].to_input@ == nombre {
        k
    } else {
        indice_enlace(ls, to, nombre, k + 1)
    }
}

/// El primer valor por defecto desde `k` con nombre `nombre`, o el número de
/// valores.
pub open spec fn indice_defecto(ds: Seq<(String, Value)>, nombre: Seq<char>, k: int) -> int
    decreases ds.len() - k,
{
    if k < 0 || k >= ds.len() {
        ds.len() as int
    } else if ds[k].0@ == nombre {
        k
    } else {
        indice_defecto(ds, nombre, k + 1)
    }
}

/// Resuelve la entrada `nombre` de `nodo`: primero un enlace, luego un valor
/// por defecto; si no hay ninguno de los dos, falta la entrada.
pub open spec fn resolver(g: MaterialGraph, nodo: Node, nombre: Seq<char>, tipo: SocketType) -> Result<Entrada, Fallo> {
    let ls = g.links@;
    let k = indice_enlace(ls, nodo.id, nombre, 0);
    if k < ls.len() {
        let de = ls[k].from;
        let j = indice_nodo(g.nodes@, de);
        if j < 0 {
            Err(Fallo::Desconocido(de))
        } else {
            let t = salida_de(g.nodes@[j]);
            if !compatibles(t, tipo) {
                Err(Fallo::Tipos { de: t, a: tipo })
            } else {
                Ok(Entrada::Nodo(de))
            }
        }
    } else {
        let ds = nodo.defaults@;
        let d = indice_defecto(ds, nombre, 0);
        if d < ds.len() {
            let v = ds[d].1;
            let t = tipo_de_valor(v);
            if !compatibles(t, tipo) {
                Err(Fallo::Tipos { de: t, a: tipo })
            } else {
                Ok(Entrada::Literal(v))
            }
        } else {
            Err(Fallo::FaltaEntrada { nodo: nodo.id, entrada: nombre })
        }
    }
}

/// El estado del recorrido: qué nodos se han marcado (`false` mientras se
/// visitan, `true` hechos), el orden topológico y las entradas resueltas.
pub type Est = (Map<u32, bool>, Seq<u32>, Seq<Seq<Entrada>>);

/// Visita `id` y, antes, todo aquello de lo que depende. Volver a un nodo que
/// se está visitando es un ciclo. `fuel` acota la profundidad; con uno más
/// que nodos nunca se agota, porque cada nivel marca un nodo distinto.
pub open spec fn visitar(g: MaterialGraph, id: u32, st: Est, fuel: nat) -> Result<Est, Fallo>
    decreases fuel, 0nat,
{
    if st.0.contains_key(id) {
        if st.0[id] {
            Ok(st)
        } else {
            Err(Fallo::Ciclo(id))
        }
    } else {
        let j = indice_nodo(g.nodes@, id);
        if j < 0 {
            Err(Fallo::Desconocido(id))
        } else if fuel == 0 {
            Err(Fallo::SinSalida)
        } else {
            let nodo = g.nodes@[j];
            let st1 = (st.0.insert(id, false), st.1, st.2);
            if nodo.kind == NodeKind::Constant && nodo.constant is None {
                Err(Fallo::FaltaEntrada { nodo: id, entrada: "constant"@ })
            } else {
                match entradas_desde(g, nodo, 0, st1, Seq::empty(), (fuel - 1) as nat) {
                    Err(e) => Err(e),
                    Ok((st2, res)) => Ok((st2.0.insert(id, true), st2.1.push(id), st2.2.push(res))),
                }
            }
        }
    }
}

/// Resuelve las entradas de `nodo` desde la `k`, visitando los nodos
/// enlazados.
pub open spec fn entradas_desde(g: MaterialGraph, nodo: Node, k: nat, st: Est, res: Seq<Entrada>, fuel: nat) -> Result<
    (Est, Seq<Entrada>),
    Fallo,
>
    decreases fuel, tipos_de_entradas(nodo.kind).len() + 1 - k,
{
    let n = tipos_de_entradas(nodo.kind).len();
    if k >= n {
        Ok((st, res))
    } else {
        match resolver(g, nodo, nombres_de_entradas(nodo.kind)[k as int], tipos_de_entradas(nodo.kind)[k as int]) {
            Err(e) => Err(e),
            Ok(en) => {
                let st2 = match en {
                    Entrada::Nodo(o) => visitar(g, o, st, fuel),
                    Entrada::Literal(_) => Ok(st),
                };
                match st2 {
                    Err(e) => Err(e),
                    Ok(s) => entradas_desde(g, nodo, k + 1, s, res.push(en), fuel),
                }
            },
        }
    }
}

/// El análisis de un grafo: su salida tiene que existir y ser una
/// `StandardSurface`; luego se recorre desde ella.
pub open spec fn analisis_de(g: MaterialGraph) -> Result<(Seq<u32>, Seq<Seq<Entrada>>), Fallo> {
    match g.output {
        None => Err(Fallo::SinSalida),
        Some(s) => {
            let j = indice_nodo(g.nodes@, s);
            if j < 0 {
                Err(Fallo::Desconocido(s))
            } else if g.nodes@[j].kind != NodeKind::StandardSurface {
                Err(Fallo::SinSalida)
            } else {
                match visitar(g, s, (Map::empty(), Seq::empty(), Seq::empty()), (g.nodes@.len() + 1) as nat) {
                    Err(e) => Err(e),
                    Ok(st) => Ok((st.1, st.2)),
                }
            }
        },
    }
}

/// Los ids de una lista de nodos.
pub open spec fn ids_de(ns: Seq<Node>) -> Set<u32> {
    ns.map_values(|n: Node| n.id).to_set()
}

proof fn lema_indice_nodo(ns: Seq<Node>, id: u32)
    ensures
        -1 <= indice_nodo(ns, id) < ns.len(),
        indice_nodo(ns, id) >= 0 ==> ns[indice_nodo(ns, id)].id == id,
        indice_nodo(ns, id) >= 0 <==> ids_de(ns).contains(id),
    decreases ns.len(),
{
    if ns.len() > 0 {
        lema_indice_nodo(ns.drop_last(), id);
        let m = ns.map_values(|n: Node| n.id);
        let m2 = ns.drop_last().map_values(|n: Node| n.id);
        assert(m2 =~= m.drop_last());
        if ids_de(ns).contains(id) && ns.last().id != id {
            let w = choose|w: int| 0 <= w < m.len() && m[w] == id;
            assert(w < ns.len() - 1);
            assert(m2[w] == id);
        }
        if indice_nodo(ns.drop_last(), id) >= 0 {
            let w = indice_nodo(ns.drop_last(), id);
            assert(m[w] == id);
        }
        if ns.last().id == id {
            assert(m[ns.len() - 1] == id);
        }
    }
}

proof fn lema_ids_acotados(ns: Seq<Node>)
    ensures
        ids_de(ns).finite(),
        ids_de(ns).len() <= ns.len(),
{
    let m = ns.map_values(|n: Node| n.id);
    m.lemma_cardinality_of_set();
    vstd::seq_lib::seq_to_set_is_finite(m);
}

/// El combustible alcanza: lo marcado son nodos del grafo, y quedan tantos
/// niveles como nodos sin marcar, más uno.
pub open spec fn combustible_suficiente(g: MaterialGraph, st: Est, fuel: nat) -> bool {
    &&& st.0.dom().finite()
    &&& st.0.dom().subset_of(ids_de(g.nodes@))
    &&& fuel + st.0.dom().len() >= g.nodes@.len() + 1
}

/// El estado del recorrido, en ejecución.
struct Estado {
    marcas: HashMap<u32, bool>,
    orden: Vec<u32>,
    entradas: Vec<Vec<Entrada>>,
}

impl Estado {
    spec fn vista(&self) -> Est {
        (self.marcas@, self.orden@, Seq::new(self.entradas@.len(), |i: int| self.entradas@[i]@))
    }
}

/// Busca el último nodo con id `id`.
pub(crate) fn buscar_nodo(ns: &Vec<Node>, id: u32) -> (r: Option<usize>)
    ensures
        match r {
            Some(j) => j == indice_nodo(ns@, id) && j < ns@.len(),
            None => indice_nodo(ns@, id) == -1,
        },
{
    let mut i = ns.len();
    assert(ns@.take(i as int) =~= ns@);
    while i > 0
        invariant
            i <= ns@.len(),
            indice_nodo(ns@, id) == indice_nodo(ns@.take(i as int), id),
        decreases i,
    {
        proof {
            assert(ns@.take(i as int).drop_last() =~= ns@.take(i - 1));
            assert(ns@.take(i as int).last() == ns@[i - 1]);
        }
        if ns[i - 1].id == id {
            return Some(i - 1);
        }
        i = i - 1;
    }
    assert(ns@.take(0) =~= Seq::<Node>::empty());
    None
}

fn buscar_enlace(ls: &Vec<Link>, to: u32, nombre: &String) -> (r: usize)
    ensures
        r == indice_enlace(ls@, to, nombre@, 0),
{
    let mut k: usize = 0;
    while k < ls.len()
        invariant
            k <= ls@.len(),
            indice_enlace(ls@, to, nombre@, 0) == indice_enlace(ls@, to, nombre@, k as int),
        decreases ls@.len() - k,
    {
        if ls[k].to == to && ls[k].to_input == *nombre {
            return k;
        }
        k = k + 1;
    }
    k
}

fn buscar_defecto(ds: &Vec<(String, Value)>, nombre: &String) -> (r: usize)
    ensures
        r == indice_defecto(ds@, nombre@, 0),
{
    let mut k: usize = 0;
    while k < ds.len()
        invariant
            k <= ds@.len(),
            indice_defecto(ds@, nombre@, 0) == indice_defecto(ds@, nombre@, k as int),
        decreases ds@.len() - k,
    {
        if ds[k].0 == *nombre {
            return k;
        }
        k = k + 1;
    }
    k
}

fn resolver_entrada(
    g: &MaterialGraph,
    nodo: &Node,
    nombre: &'static str,
    tipo: SocketType,
) -> (r: Result<Entrada, MaterialError>)
    ensures
        match resolver(*g, *nodo, nombre@, tipo) {
            Ok(e) => r == Ok::<Entrada, MaterialError>(e),
            Err(f) => r matches Err(e) && fallo_de(e) == f,
        },
{
    let n = String::from_str(nombre);
    let k = buscar_enlace(&g.links, nodo.id, &n);
    if k < g.links.len() {
        let de = g.links[k].from;
        match buscar_nodo(&g.nodes, de) {
            None => Err(MaterialError::UnknownNode(de)),
            Some(j) => {
                let t = tipo_salida(&g.nodes[j]);
                if !t.compatible_with(tipo) {
                    Err(MaterialError::TypeMismatch { from: t, to: tipo })
                } else {
                    Ok(Entrada::Nodo(de))
                }
            },
        }
    } else {
        let d = buscar_defecto(&nodo.defaults, &n);
        if d < nodo.defaults.len() {
            let v = nodo.defaults[d].1;
            let t = v.socket_type();
            if !t.compatible_with(tipo) {
                Err(MaterialError::TypeMismatch { from: t, to: tipo })
            } else {
                Ok(Entrada::Literal(v))
            }
        } else {
            Err(MaterialError::MissingInput { node: nodo.id, input: nombre })
        }
    }
}

/// Marcar un nodo nuevo del grafo gasta un nivel de combustible y deja el
/// resto suficiente.
proof fn lema_marcar(g: MaterialGraph, st: Est, id: u32, fuel: nat)
    requires
        combustible_suficiente(g, st, fuel),
        !st.0.contains_key(id),
        ids_de(g.nodes@).contains(id),
    ensures
        fuel >= 2,
        combustible_suficiente(g, (st.0.insert(id, false), st.1, st.2), (fuel - 1) as nat),
{
    lema_ids_acotados(g.nodes@);
    let d2 = st.0.insert(id, false).dom();
    assert(d2 =~= st.0.dom().insert(id));
    assert(d2.subset_of(ids_de(g.nodes@)));
    vstd::set_lib::lemma_len_subset(d2, ids_de(g.nodes@));
}

/// Recorre desde `id`.
fn recorrer(g: &MaterialGraph, id: u32, st: &mut Estado, Ghost(fuel): Ghost<nat>) -> (r: Result<(), MaterialError>)
    requires
        combustible_suficiente(*g, old(st).vista(), fuel),
    ensures
        match visitar(*g, id, old(st).vista(), fuel) {
            Ok(s) => r is Ok && final(st).vista() == s,
            Err(f) => r matches Err(e) && fallo_de(e) == f,
        },
        r is Ok ==> combustible_suficiente(*g, final(st).vista(), fuel),
    decreases fuel,
{
    let ghost st0 = st.vista();
    match st.marcas.get(&id) {
        Some(hecho) => {
            if *hecho {
                return Ok(());
            } else {
                return Err(MaterialError::Cycle(id));
            }
        },
        None => {},
    }
    let j = match buscar_nodo(&g.nodes, id) {
        Some(j) => j,
        None => {
            return Err(MaterialError::UnknownNode(id));
        },
    };
    proof {
        lema_indice_nodo(g.nodes@, id);
        lema_marcar(*g, st0, id, fuel);
    }
    let nodo = &g.nodes[j];
    st.marcas.insert(id, false);
    assert(st.vista().0 == st0.0.insert(id, false));
    assert(st.vista() == (st0.0.insert(id, false), st0.1, st0.2));
    if nodo.kind == NodeKind::Constant && nodo.constant.is_none() {
        return Err(MaterialError::MissingInput { node: id, input: "constant" });
    }
    let entradas = nodo.kind.inputs();
    let ghost f1 = (fuel - 1) as nat;
    let ghost total = entradas_desde(*g, *nodo, 0, st.vista(), Seq::empty(), f1);
    let mut res: Vec<Entrada> = Vec::new();
    let mut k: usize = 0;
    while k < entradas.len()
        invariant
            entradas@.len() == tipos_de_entradas(nodo.kind).len(),
            forall|i: int| 0 <= i < entradas@.len() ==> #[trigger] entradas@[i].1 == tipos_de_entradas(nodo.kind)[i],
            forall|i: int| 0 <= i < entradas@.len() ==> #[trigger] entradas@[i].0@ == nombres_de_entradas(nodo.kind)[i],
            k <= entradas@.len(),
            f1 == fuel - 1,
            fuel >= 2,
            j == indice_nodo(g.nodes@, id),
            j < g.nodes@.len(),
            nodo == g.nodes@[j as int],
            st0 == old(st).vista(),
            !st0.0.contains_key(id),
            ids_de(g.nodes@).contains(id),
            !(nodo.kind == NodeKind::Constant && nodo.constant is None),
            total == entradas_desde(*g, *nodo, 0, (st0.0.insert(id, false), st0.1, st0.2), Seq::empty(), f1),
            total == entradas_desde(*g, *nodo, k as nat, st.vista(), res@, f1),
            combustible_suficiente(*g, st.vista(), f1),
        decreases entradas@.len() - k,
    {
        let (nombre, tipo) = entradas[k];
        assert(nombre@ == nombres_de_entradas(nodo.kind)[k as int]);
        assert(tipo == tipos_de_entradas(nodo.kind)[k as int]);
        let en = match resolver_entrada(g, nodo, nombre, tipo) {
            Ok(en) => en,
            Err(e) => {
                return Err(e);
            },
        };
        match en {
            Entrada::Nodo(o) => {
                match recorrer(g, o, st, Ghost(f1)) {
                    Ok(()) => {},
                    Err(e) => {
                        return Err(e);
                    },
                }
            },
            Entrada::Literal(_) => {},
        }
        res.push(en);
        k = k + 1;
    }
    let ghost antes = st.vista();
    st.marcas.insert(id, true);
    st.orden.push(id);
    st.entradas.push(res);
    proof {
        assert(st.vista().2 =~= antes.2.push(res@));
        assert(st.vista().0.dom() =~= antes.0.dom().insert(id));
    }
    Ok(())
}

/// Valida y resuelve el grafo a partir de su nodo de salida. Los nodos que no
/// se alcanzan desde la salida no se miran: sus problemas no bloquean nada.
pub fn analizar(g: &MaterialGraph) -> (r: Result<Analisis, MaterialError>)
    ensures
        match analisis_de(*g) {
            Ok((orden, entradas)) => r matches Ok(a) && a.orden@ == orden && a.entradas@.len() == entradas.len()
                && forall|i: int| 0 <= i < entradas.len() ==> (#[trigger] a.entradas@[i])@ == entradas[i],
            Err(f) => r matches Err(e) && fallo_de(e) == f,
        },
        r matches Ok(a) ==> a.orden@.len() == a.entradas@.len() && forall|i: int|
            0 <= i < a.orden@.len() ==> indice_nodo(g.nodes@, #[trigger] a.orden@[i]) >= 0,
        r matches Ok(a) ==> completo(*g, a.orden@, Seq::new(a.entradas@.len(), |i: int| a.entradas@[i]@)),
{
    let s = match g.output {
        None => {
            return Err(MaterialError::NoOutput);
        },
        Some(s) => s,
    };
    let j = match buscar_nodo(&g.nodes, s) {
        None => {
            return Err(MaterialError::UnknownNode(s));
        },
        Some(j) => j,
    };
    if g.nodes[j].kind != NodeKind::StandardSurface {
        return Err(MaterialError::NoOutput);
    }
    let mut st = Estado { marcas: HashMap::new(), orden: Vec::new(), entradas: Vec::new() };
    proof {
        assert(st.vista().0 =~= Map::<u32, bool>::empty());
        assert(st.vista().2 =~= Seq::<Seq<Entrada>>::empty());
        assert(st.vista().0.dom() =~= Set::<u32>::empty());
    }
    let ghost st0 = st.vista();
    match recorrer(g, s, &mut st, Ghost((g.nodes@.len() + 1) as nat)) {
        Ok(()) => {},
        Err(e) => {
            return Err(e);
        },
    }
    proof {
        lema_visitar(*g, s, st0, (g.nodes@.len() + 1) as nat);
        lema_visitar_completo(*g, s, st0, (g.nodes@.len() + 1) as nat);
        assert(Seq::new(st.entradas@.len(), |i: int| st.entradas@[i]@) == st.vista().2);
        assert forall|i: int| 0 <= i < st.orden@.len() implies indice_nodo(g.nodes@, #[trigger] st.orden@[i]) >= 0 by {
            assert(st.vista().1[i] == st.orden@[i]);
            assert(st.vista().0.contains_key(st.orden@[i]));
            lema_indice_nodo(g.nodes@, st.orden@[i]);
        }
    }
    Ok(Analisis { orden: st.orden, entradas: st.entradas })
}

/// Lo que hace falta para escribir cada nodo del orden: que exista, que tenga
/// resueltas todas sus entradas y, si es una constante, que tenga valor.
pub open spec fn completo(g: MaterialGraph, orden: Seq<u32>, entradas: Seq<Seq<Entrada>>) -> bool {
    &&& orden.len() == entradas.len()
    &&& forall|i: int|
        0 <= i < orden.len() ==> {
            let j = #[trigger] indice_nodo(g.nodes@, orden[i]);
            &&& j >= 0
            &&& entradas[i].len() == tipos_de_entradas(g.nodes@[j].kind).len()
            &&& (g.nodes@[j].kind == NodeKind::Constant ==> g.nodes@[j].constant is Some)
        }
}

proof fn lema_visitar_completo(g: MaterialGraph, id: u32, st: Est, fuel: nat)
    requires
        completo(g, st.1, st.2),
    ensures
        visitar(g, id, st, fuel) matches Ok(s) ==> completo(g, s.1, s.2),
    decreases fuel, 0nat,
{
    if !st.0.contains_key(id) && indice_nodo(g.nodes@, id) >= 0 && fuel > 0 {
        let j = indice_nodo(g.nodes@, id);
        let nodo = g.nodes@[j];
        let st1 = (st.0.insert(id, false), st.1, st.2);
        if !(nodo.kind == NodeKind::Constant && nodo.constant is None) {
            lema_entradas_completo(g, nodo, 0, st1, Seq::empty(), (fuel - 1) as nat);
            if let Ok((st2, res)) = entradas_desde(g, nodo, 0, st1, Seq::empty(), (fuel - 1) as nat) {
                let s = (st2.0.insert(id, true), st2.1.push(id), st2.2.push(res));
                assert forall|i: int| 0 <= i < s.1.len() implies {
                    let k = #[trigger] indice_nodo(g.nodes@, s.1[i]);
                    &&& k >= 0
                    &&& s.2[i].len() == tipos_de_entradas(g.nodes@[k].kind).len()
                    &&& (g.nodes@[k].kind == NodeKind::Constant ==> g.nodes@[k].constant is Some)
                } by {
                    if i < st2.1.len() {
                        assert(s.1[i] == st2.1[i]);
                        assert(s.2[i] == st2.2[i]);
                        assert(indice_nodo(g.nodes@, st2.1[i]) >= 0);
                    } else {
                        assert(s.1[i] == id);
                        assert(s.2[i] == res);
                    }
                }
            }
        }
    }
}

proof fn lema_entradas_completo(g: MaterialGraph, nodo: Node, k: nat, st: Est, res: Seq<Entrada>, fuel: nat)
    requires
        completo(g, st.1, st.2),
        res.len() == k,
        k <= tipos_de_entradas(nodo.kind).len(),
    ensures
        entradas_desde(g, nodo, k, st, res, fuel) matches Ok((s, r)) ==> completo(g, s.1, s.2) && r.len()
            == tipos_de_entradas(nodo.kind).len(),
    decreases fuel, tipos_de_entradas(nodo.kind).len() + 1 - k,
{
    let n = tipos_de_entradas(nodo.kind).len();
    if k < n {
        if let Ok(en) = resolver(g, nodo, nombres_de_entradas(nodo.kind)[k as int], tipos_de_entradas(nodo.kind)[k as int]) {
            match en {
                Entrada::Nodo(o) => {
                    lema_visitar_completo(g, o, st, fuel);
                },
                Entrada::Literal(_) => {},
            }
            let st2 = match en {
                Entrada::Nodo(o) => visitar(g, o, st, fuel),
                Entrada::Literal(_) => Ok(st),
            };
            if let Ok(s1) = st2 {
                lema_entradas_completo(g, nodo, k + 1, s1, res.push(en), fuel);
            }
        }
    }
}

/// Todo análisis con éxito está completo.
pub(crate) proof fn lema_analisis_completo(g: MaterialGraph)
    ensures
        analisis_de(g) matches Ok((orden, es)) ==> completo(g, orden, es),
{
    if let Some(s) = g.output {
        let st0: Est = (Map::empty(), Seq::empty(), Seq::empty());
        lema_visitar_completo(g, s, st0, (g.nodes@.len() + 1) as nat);
    }
}

/// Sin dos nodos con el mismo id.
pub open spec fn ids_unicos(ns: Seq<Node>) -> bool {
    forall|i: int, j: int| 0 <= i < j < ns.len() ==> ns[i].id != ns[j].id
}

/// Lo único que el análisis mira de la lista de nodos: cuántos hay y qué nodo
/// lleva cada id.
pub open spec fn mismos_nodos(a: MaterialGraph, b: MaterialGraph) -> bool {
    &&& a.nodes@.len() == b.nodes@.len()
    &&& forall|id: u32| #[trigger] indice_nodo(a.nodes@, id) >= 0 <==> indice_nodo(b.nodes@, id) >= 0
    &&& forall|id: u32|
        #[trigger] indice_nodo(a.nodes@, id) >= 0 ==> a.nodes@[indice_nodo(a.nodes@, id)] == b.nodes@[indice_nodo(
            b.nodes@,
            id,
        )]
}

proof fn lema_nodo_en(ns: Seq<Node>, p: int)
    requires
        0 <= p < ns.len(),
        ids_unicos(ns),
    ensures
        indice_nodo(ns, ns[p].id) == p,
{
    let id = ns[p].id;
    lema_indice_nodo(ns, id);
    let m = ns.map_values(|n: Node| n.id);
    assert(m[p] == id);
    assert(ids_de(ns).contains(id));
}

/// Dos listas de nodos sin ids repetidos, una permutación de la otra, tienen
/// los mismos nodos para el análisis.
pub(crate) proof fn lema_permutacion(a: MaterialGraph, b: MaterialGraph)
    requires
        a.nodes@.to_multiset() == b.nodes@.to_multiset(),
        ids_unicos(a.nodes@),
        ids_unicos(b.nodes@),
    ensures
        mismos_nodos(a, b),
{
    a.nodes@.to_multiset_ensures();
    b.nodes@.to_multiset_ensures();
    assert forall|id: u32| #[trigger] indice_nodo(a.nodes@, id) >= 0 implies indice_nodo(b.nodes@, id) >= 0
        && a.nodes@[indice_nodo(a.nodes@, id)] == b.nodes@[indice_nodo(b.nodes@, id)] by {
        lema_indice_nodo(a.nodes@, id);
        let n = a.nodes@[indice_nodo(a.nodes@, id)];
        assert(a.nodes@.contains(n));
        assert(a.nodes@.to_multiset().count(n) > 0);
        assert(b.nodes@.to_multiset().count(n) > 0);
        assert(b.nodes@.contains(n));
        let p = choose|p: int| 0 <= p < b.nodes@.len() && b.nodes@[p] == n;
        lema_nodo_en(b.nodes@, p);
    }
    assert forall|id: u32| #[trigger] indice_nodo(b.nodes@, id) >= 0 implies indice_nodo(a.nodes@, id) >= 0 by {
        lema_indice_nodo(b.nodes@, id);
        let n = b.nodes@[indice_nodo(b.nodes@, id)];
        assert(b.nodes@.contains(n));
        assert(b.nodes@.to_multiset().count(n) > 0);
        assert(a.nodes@.to_multiset().count(n) > 0);
        assert(a.nodes@.contains(n));
        let p = choose|p: int| 0 <= p < a.nodes@.len() && a.nodes@[p] == n;
        lema_nodo_en(a.nodes@, p);
    }
}

pub(crate) proof fn lema_visitar_igual(a: MaterialGraph, b: MaterialGraph, id: u32, st: Est, fuel: nat)
    requires
        mismos_nodos(a, b),
        a.links@ == b.links@,
    ensures
        visitar(a, id, st, fuel) == visitar(b, id, st, fuel),
    decreases fuel, 0nat,
{
    assert(indice_nodo(a.nodes@, id) >= 0 <==> indice_nodo(b.nodes@, id) >= 0);
    if !st.0.contains_key(id) && indice_nodo(a.nodes@, id) >= 0 && fuel > 0 {
        let nodo = a.nodes@[indice_nodo(a.nodes@, id)];
        assert(nodo == b.nodes@[indice_nodo(b.nodes@, id)]);
        let st1 = (st.0.insert(id, false), st.1, st.2);
        lema_entradas_igual(a, b, nodo, 0, st1, Seq::empty(), (fuel - 1) as nat);
    }
}

pub(crate) proof fn lema_entradas_igual(
    a: MaterialGraph,
    b: MaterialGraph,
    nodo: Node,
    k: nat,
    st: Est,
    res: Seq<Entrada>,
    fuel: nat,
)
    requires
        mismos_nodos(a, b),
        a.links@ == b.links@,
    ensures
        entradas_desde(a, nodo, k, st, res, fuel) == entradas_desde(b, nodo, k, st, res, fuel),
    decreases fuel, tipos_de_entradas(nodo.kind).len() + 1 - k,
{
    let n = tipos_de_entradas(nodo.kind).len();
    if k < n {
        let nombre = nombres_de_entradas(nodo.kind)[k as int];
        let tipo = tipos_de_entradas(nodo.kind)[k as int];
        let ls = a.links@;
        let q = indice_enlace(ls, nodo.id, nombre, 0);
        if q < ls.len() {
            let de = ls[q].from;
            assert(indice_nodo(a.nodes@, de) >= 0 <==> indice_nodo(b.nodes@, de) >= 0);
        }
        assert(resolver(a, nodo, nombre, tipo) == resolver(b, nodo, nombre, tipo));
        if let Ok(en) = resolver(a, nodo, nombre, tipo) {
            match en {
                Entrada::Nodo(o) => {
                    lema_visitar_igual(a, b, o, st, fuel);
                },
                Entrada::Literal(_) => {},
            }
            let st2 = match en {
                Entrada::Nodo(o) => visitar(a, o, st, fuel),
                Entrada::Literal(_) => Ok(st),
            };
            if let Ok(s1) = st2 {
                lema_entradas_igual(a, b, nodo, k + 1, s1, res.push(en), fuel);
            }
        }
    }
}

/// Con los mismos nodos, enlaces y salida, el análisis es el mismo.
pub(crate) proof fn lema_analisis_igual(a: MaterialGraph, b: MaterialGraph)
    requires
        mismos_nodos(a, b),
        a.links@ == b.links@,
        a.output == b.output,
    ensures
        analisis_de(a) == analisis_de(b),
{
    if let Some(s) = a.output {
        assert(indice_nodo(a.nodes@, s) >= 0 <==> indice_nodo(b.nodes@, s) >= 0);
        let st0: Est = (Map::empty(), Seq::empty(), Seq::empty());
        lema_visitar_igual(a, b, s, st0, (a.nodes@.len() + 1) as nat);
    }
}

/// Cada entrada enlazada apunta a un nodo anterior en el orden.
pub open spec fn topologico(orden: Seq<u32>, entradas: Seq<Seq<Entrada>>) -> bool {
    &&& orden.len() == entradas.len()
    &&& forall|i: int, q: int|
        #![trigger entradas[i][q]]
        0 <= i < entradas.len() && 0 <= q < entradas[i].len() && entradas[i][q] is Nodo ==> exists|p: int|
            0 <= p < i && orden[p] == entradas[i][q]->Nodo_0
}

/// Un estado coherente: lo hecho es exactamente lo que está en el orden, y el
/// orden es topológico.
pub open spec fn coherente(st: Est) -> bool {
    &&& topologico(st.1, st.2)
    &&& forall|i: int| 0 <= i < st.1.len() ==> st.0.contains_key(#[trigger] st.1[i]) && st.0[st.1[i]]
    &&& forall|x: u32| st.0.contains_key(x) && #[trigger] st.0[x] ==> st.1.contains(x)
}

/// `b` extiende `a`.
pub open spec fn extiende(a: Est, b: Est) -> bool {
    &&& a.1.len() <= b.1.len()
    &&& a.2.len() <= b.2.len()
    &&& b.1.take(a.1.len() as int) == a.1
    &&& b.2.take(a.2.len() as int) == a.2
    &&& forall|x: u32| a.0.contains_key(x) && #[trigger] a.0[x] ==> b.0.contains_key(x) && b.0[x]
    &&& forall|x: u32| a.0.contains_key(x) && !#[trigger] a.0[x] ==> b.0.contains_key(x) && !b.0[x]
}

/// Toda entrada enlazada de `res` apunta a algo ya hecho en `st`.
pub open spec fn enlaces_hechos(st: Est, res: Seq<Entrada>) -> bool {
    forall|q: int|
        0 <= q < res.len() && (#[trigger] res[q]) is Nodo ==> st.0.contains_key(res[q]->Nodo_0) && st.0[res[q]->Nodo_0]
}

proof fn lema_extiende_trans(a: Est, b: Est, c: Est)
    requires
        extiende(a, b),
        extiende(b, c),
    ensures
        extiende(a, c),
{
    assert(c.1.take(a.1.len() as int) =~= c.1.take(b.1.len() as int).take(a.1.len() as int));
    assert(c.2.take(a.2.len() as int) =~= c.2.take(b.2.len() as int).take(a.2.len() as int));
}

proof fn lema_visitar(g: MaterialGraph, id: u32, st: Est, fuel: nat)
    requires
        coherente(st),
    ensures
        visitar(g, id, st, fuel) matches Ok(s) ==> coherente(s) && extiende(st, s) && s.0.contains_key(id) && s.0[id],
    decreases fuel, 0nat,
{
    if !st.0.contains_key(id) && indice_nodo(g.nodes@, id) >= 0 && fuel > 0 {
        let nodo = g.nodes@[indice_nodo(g.nodes@, id)];
        let st1 = (st.0.insert(id, false), st.1, st.2);
        assert(coherente(st1)) by {
            assert forall|i: int| 0 <= i < st1.1.len() implies st1.0.contains_key(#[trigger] st1.1[i]) && st1.0[st1.1[i]] by {
                assert(st.0.contains_key(st.1[i]));
            }
        }
        assert(extiende(st, st1)) by {
            assert(st1.1.take(st.1.len() as int) =~= st.1);
            assert(st1.2.take(st.2.len() as int) =~= st.2);
            assert forall|x: u32| st.0.contains_key(x) && #[trigger] st.0[x] implies st1.0.contains_key(x) && st1.0[x] by {
                assert(x != id);
            }
            assert forall|x: u32| st.0.contains_key(x) && !#[trigger] st.0[x] implies st1.0.contains_key(x) && !st1.0[x] by {
                assert(x != id);
            }
        }
        lema_entradas(g, nodo, 0, st1, Seq::empty(), (fuel - 1) as nat);
        if let Ok((st2, res)) = entradas_desde(g, nodo, 0, st1, Seq::empty(), (fuel - 1) as nat) {
            if !(nodo.kind == NodeKind::Constant && nodo.constant is None) {
                lema_extiende_trans(st, st1, st2);
                let s = (st2.0.insert(id, true), st2.1.push(id), st2.2.push(res));
                assert(st1.0.contains_key(id) && !st1.0[id]);
                assert(st2.0.contains_key(id) && !st2.0[id]);
                assert(!st2.1.contains(id)) by {
                    if st2.1.contains(id) {
                        let w = choose|w: int| 0 <= w < st2.1.len() && st2.1[w] == id;
                        assert(st2.0.contains_key(st2.1[w]) && st2.0[st2.1[w]]);
                    }
                }
                assert(topologico(s.1, s.2)) by {
                    assert forall|i: int, q: int|
                        #![trigger s.2[i][q]]
                        0 <= i < s.2.len() && 0 <= q < s.2[i].len() && s.2[i][q] is Nodo implies exists|p: int|
                            0 <= p < i && s.1[p] == s.2[i][q]->Nodo_0 by {
                        if i < st2.2.len() {
                            assert(s.2[i] == st2.2[i]);
                            let p = choose|p: int| 0 <= p < i && st2.1[p] == st2.2[i][q]->Nodo_0;
                            assert(s.1[p] == st2.1[p]);
                        } else {
                            assert(s.2[i] == res);
                            let o = res[q]->Nodo_0;
                            assert(st2.0.contains_key(o) && st2.0[o]);
                            assert(st2.1.contains(o));
                            let p = choose|p: int| 0 <= p < st2.1.len() && st2.1[p] == o;
                            assert(s.1[p] == o);
                        }
                    }
                }
                assert forall|i: int| 0 <= i < s.1.len() implies s.0.contains_key(#[trigger] s.1[i]) && s.0[s.1[i]] by {
                    if i < st2.1.len() {
                        assert(s.1[i] == st2.1[i]);
                        assert(st2.0.contains_key(st2.1[i]));
                    }
                }
                assert forall|x: u32| s.0.contains_key(x) && #[trigger] s.0[x] implies s.1.contains(x) by {
                    if x == id {
                        assert(s.1[s.1.len() - 1] == id);
                    } else {
                        assert(st2.0[x]);
                        let w = choose|w: int| 0 <= w < st2.1.len() && st2.1[w] == x;
                        assert(s.1[w] == x);
                    }
                }
                assert(s.1.take(st2.1.len() as int) =~= st2.1);
                assert(s.2.take(st2.2.len() as int) =~= st2.2);
                assert(extiende(st, s)) by {
                    assert(s.1.take(st.1.len() as int) =~= st2.1.take(st.1.len() as int));
                    assert(s.2.take(st.2.len() as int) =~= st2.2.take(st.2.len() as int));
                    assert forall|x: u32| st.0.contains_key(x) && !#[trigger] st.0[x] implies s.0.contains_key(x) && !s.0[x] by {
                        assert(x != id);
                    }
                }
            }
        }
    } else if st.0.contains_key(id) && st.0[id] {
        assert(st.1.take(st.1.len() as int) =~= st.1);
        assert(st.2.take(st.2.len() as int) =~= st.2);
    }
}

proof fn lema_entradas(g: MaterialGraph, nodo: Node, k: nat, st: Est, res: Seq<Entrada>, fuel: nat)
    requires
        coherente(st),
        enlaces_hechos(st, res),
    ensures
        entradas_desde(g, nodo, k, st, res, fuel) matches Ok((s, r)) ==> coherente(s) && extiende(st, s)
            && enlaces_hechos(s, r),
    decreases fuel, tipos_de_entradas(nodo.kind).len() + 1 - k,
{
    let n = tipos_de_entradas(nodo.kind).len();
    if k >= n {
        assert(st.1.take(st.1.len() as int) =~= st.1);
        assert(st.2.take(st.2.len() as int) =~= st.2);
    } else {
        if let Ok(en) = resolver(g, nodo, nombres_de_entradas(nodo.kind)[k as int], tipos_de_entradas(nodo.kind)[k as int]) {
            let st2 = match en {
                Entrada::Nodo(o) => visitar(g, o, st, fuel),
                Entrada::Literal(_) => Ok(st),
            };
            if let Ok(s1) = st2 {
                match en {
                    Entrada::Nodo(o) => {
                        lema_visitar(g, o, st, fuel);
                    },
                    Entrada::Literal(_) => {
                        assert(st.1.take(st.1.len() as int) =~= st.1);
                        assert(st.2.take(st.2.len() as int) =~= st.2);
                    },
                }
                assert(enlaces_hechos(s1, res.push(en))) by {
                    assert forall|q: int| 0 <= q < res.push(en).len() && (#[trigger] res.push(en)[q]) is Nodo implies s1.0.contains_key(
                        res.push(en)[q]->Nodo_0,
                    ) && s1.0[res.push(en)[q]->Nodo_0] by {
                        if q < res.len() {
                            assert(res.push(en)[q] == res[q]);
                            assert(st.0.contains_key(res[q]->Nodo_0) && st.0[res[q]->Nodo_0]);
                        }
                    }
                }
                lema_entradas(g, nodo, k + 1, s1, res.push(en), fuel);
                if let Ok((s, r)) = entradas_desde(g, nodo, k + 1, s1, res.push(en), fuel) {
                    lema_extiende_trans(st, s1, s);
                }
            }
        }
    }
}

/// El análisis es un orden topológico: toda entrada enlazada de un nodo
/// apunta a un nodo que aparece antes en el orden, y la salida es el último.
pub proof fn ley_orden_topologico(g: MaterialGraph)
    ensures
        analisis_de(g) matches Ok((orden, entradas)) ==> topologico(orden, entradas) && orden.len() > 0
            && g.output == Some(orden.last()),
{
    if let Some(s) = g.output {
        let st0: Est = (Map::empty(), Seq::empty(), Seq::empty());
        lema_visitar(g, s, st0, (g.nodes@.len() + 1) as nat);
        if let Ok(st) = visitar(g, s, st0, (g.nodes@.len() + 1) as nat) {
            assert(st.1.contains(s));
        }
    }
}

// ---------------------------------------------------------------------------
// Clave de permutación
// ---------------------------------------------------------------------------

/// Lo que se hashea para la clave de caché de un shader, en orden.
#[derive(Clone, Copy, Debug)]
pub enum Pieza {
    /// El nombre de la clase de un nodo.
    Texto(&'static str),
    Byte(u8),
    /// Una posición en el orden topológico.
    Indice(usize),
    /// Los bits de un `f32`.
    Bits(u32),
}

/// Una pieza como valor: el texto por su vista.
pub enum PiezaV {
    Texto(Seq<char>),
    Byte(u8),
    Indice(usize),
    Bits(u32),
}

pub open spec fn pieza_v(p: Pieza) -> PiezaV {
    match p {
        Pieza::Texto(s) => PiezaV::Texto(s@),
        Pieza::Byte(b) => PiezaV::Byte(b),
        Pieza::Indice(i) => PiezaV::Indice(i),
        Pieza::Bits(x) => PiezaV::Bits(x),
    }
}

/// Un valor por sus bits, con una etiqueta de su clase delante.
pub open spec fn piezas_de_valor(v: Value) -> Seq<PiezaV> {
    match v {
        Value::Float(x) => seq![PiezaV::Byte(0), PiezaV::Bits(x)],
        Value::Vec2(a, b) => seq![PiezaV::Byte(1), PiezaV::Bits(a), PiezaV::Bits(b)],
        Value::Vec3(a, b, c) => seq![PiezaV::Byte(2), PiezaV::Bits(a), PiezaV::Bits(b), PiezaV::Bits(c)],
        Value::Color(a, b, c) => seq![PiezaV::Byte(3), PiezaV::Bits(a), PiezaV::Bits(b), PiezaV::Bits(c)],
    }
}

/// La primera posición de `x` en `s`.
pub open spec fn posicion(s: Seq<u32>, x: u32) -> int
    decreases s.len(),
{
    if s.len() == 0 || s[0] == x {
        0
    } else {
        1 + posicion(s.drop_first(), x)
    }
}

/// Las piezas de las entradas de un nodo: un enlace por la posición de su
/// origen en el orden (no por su id: dos grafos iguales con ids distintos
/// dan la misma clave), un literal por sus bits.
pub open spec fn piezas_de_entradas(orden: Seq<u32>, es: Seq<Entrada>) -> Seq<PiezaV>
    decreases es.len(),
{
    if es.len() == 0 {
        Seq::empty()
    } else {
        piezas_de_entradas(orden, es.drop_last()) + match es.last() {
            Entrada::Nodo(o) => seq![PiezaV::Byte(0), PiezaV::Indice(posicion(orden, o) as usize)],
            Entrada::Literal(v) => seq![PiezaV::Byte(1)] + piezas_de_valor(v),
        }
    }
}

/// Las piezas de un nodo: su clase, su constante si la tiene y sus entradas.
pub open spec fn piezas_de_nodo(n: Node, orden: Seq<u32>, es: Seq<Entrada>) -> Seq<PiezaV> {
    seq![PiezaV::Texto(crate::material::nombre_de_nodo(n.kind))] + (if n.kind == NodeKind::Constant
        && n.constant is Some {
        piezas_de_valor(n.constant->0)
    } else {
        Seq::empty()
    }) + piezas_de_entradas(orden, es)
}

/// Las piezas de todo el análisis: nodo a nodo, en orden topológico.
pub open spec fn piezas_de_clave(g: MaterialGraph, orden: Seq<u32>, es: Seq<Seq<Entrada>>, k: int) -> Seq<PiezaV>
    decreases k,
{
    if k <= 0 {
        Seq::empty()
    } else {
        piezas_de_clave(g, orden, es, k - 1) + piezas_de_nodo(
            g.nodes@[indice_nodo(g.nodes@, orden[k - 1])],
            orden,
            es[k - 1],
        )
    }
}

pub open spec fn vistas_piezas(p: Seq<Pieza>) -> Seq<PiezaV> {
    Seq::new(p.len(), |i: int| pieza_v(p[i]))
}

fn empujar_valor(out: &mut Vec<Pieza>, v: Value)
    ensures
        vistas_piezas(final(out)@) == vistas_piezas(old(out)@) + piezas_de_valor(v),
{
    let ghost base = out@;
    match v {
        Value::Float(x) => {
            out.push(Pieza::Byte(0));
            out.push(Pieza::Bits(x));
        },
        Value::Vec2(a, b) => {
            out.push(Pieza::Byte(1));
            out.push(Pieza::Bits(a));
            out.push(Pieza::Bits(b));
        },
        Value::Vec3(a, b, c) => {
            out.push(Pieza::Byte(2));
            out.push(Pieza::Bits(a));
            out.push(Pieza::Bits(b));
            out.push(Pieza::Bits(c));
        },
        Value::Color(a, b, c) => {
            out.push(Pieza::Byte(3));
            out.push(Pieza::Bits(a));
            out.push(Pieza::Bits(b));
            out.push(Pieza::Bits(c));
        },
    }
    assert(vistas_piezas(out@) =~= vistas_piezas(base) + piezas_de_valor(v));
}

fn posicion_exec(s: &Vec<u32>, x: u32) -> (r: usize)
    ensures
        r == posicion(s@, x),
{
    let mut i: usize = 0;
    assert(s@.skip(0) =~= s@);
    while i < s.len() && s[i] != x
        invariant
            i <= s@.len(),
            posicion(s@, x) == i + posicion(s@.skip(i as int), x),
        decreases s@.len() - i,
    {
        proof {
            assert(s@.skip(i as int).drop_first() =~= s@.skip(i + 1));
        }
        i = i + 1;
    }
    proof {
        if i < s@.len() {
            assert(s@.skip(i as int)[0] == x);
        } else {
            assert(s@.skip(i as int).len() == 0);
        }
    }
    i
}

/// Las piezas que se hashean, en orden, para la clave de permutación de un
/// análisis de `g`: el mismo grafo da siempre las mismas, y cambiar un
/// literal las cambia.
pub fn piezas_clave(g: &MaterialGraph, a: &Analisis) -> (r: Vec<Pieza>)
    requires
        a.orden@.len() == a.entradas@.len(),
        forall|i: int| 0 <= i < a.orden@.len() ==> indice_nodo(g.nodes@, #[trigger] a.orden@[i]) >= 0,
    ensures
        vistas_piezas(r@) == piezas_de_clave(
            *g,
            a.orden@,
            Seq::new(a.entradas@.len(), |i: int| a.entradas@[i]@),
            a.orden@.len() as int,
        ),
{
    let ghost es = Seq::new(a.entradas@.len(), |i: int| a.entradas@[i]@);
    let mut out: Vec<Pieza> = Vec::new();
    let mut k: usize = 0;
    while k < a.orden.len()
        invariant
            k <= a.orden@.len(),
            a.orden@.len() == a.entradas@.len(),
            es == Seq::new(a.entradas@.len(), |i: int| a.entradas@[i]@),
            forall|i: int| 0 <= i < a.orden@.len() ==> indice_nodo(g.nodes@, #[trigger] a.orden@[i]) >= 0,
            vistas_piezas(out@) == piezas_de_clave(*g, a.orden@, es, k as int),
        decreases a.orden@.len() - k,
    {
        let id = a.orden[k];
        assert(indice_nodo(g.nodes@, a.orden@[k as int]) >= 0);
        let j = buscar_nodo(&g.nodes, id).unwrap();
        let nodo = &g.nodes[j];
        let ghost base = vistas_piezas(out@);
        out.push(Pieza::Texto(nodo.kind.nombre()));
        if nodo.kind == NodeKind::Constant {
            match nodo.constant {
                Some(v) => empujar_valor(&mut out, v),
                None => {},
            }
        }
        let ghost tras_cabecera = vistas_piezas(out@);
        assert(tras_cabecera =~= base + seq![PiezaV::Texto(crate::material::nombre_de_nodo(nodo.kind))] + (if nodo.kind
            == NodeKind::Constant && nodo.constant is Some {
            piezas_de_valor(nodo.constant->0)
        } else {
            Seq::empty()
        }));
        let entradas = &a.entradas[k];
        let mut q: usize = 0;
        while q < entradas.len()
            invariant
                q <= entradas@.len(),
                entradas@ == a.entradas@[k as int]@,
                vistas_piezas(out@) == tras_cabecera + piezas_de_entradas(a.orden@, entradas@.take(q as int)),
            decreases entradas@.len() - q,
        {
            let ghost antes = vistas_piezas(out@);
            proof {
                assert(entradas@.take(q + 1).drop_last() =~= entradas@.take(q as int));
                assert(entradas@.take(q + 1).last() == entradas@[q as int]);
            }
            match entradas[q] {
                Entrada::Nodo(o) => {
                    let p = posicion_exec(&a.orden, o);
                    out.push(Pieza::Byte(0));
                    out.push(Pieza::Indice(p));
                    assert(vistas_piezas(out@) =~= antes + seq![PiezaV::Byte(0), PiezaV::Indice(p)]);
                },
                Entrada::Literal(v) => {
                    out.push(Pieza::Byte(1));
                    assert(vistas_piezas(out@) =~= antes + seq![PiezaV::Byte(1)]);
                    empujar_valor(&mut out, v);
                },
            }
            q = q + 1;
        }
        proof {
            assert(entradas@.take(entradas@.len() as int) =~= entradas@);
            assert(es[k as int] == entradas@);
        }
        k = k + 1;
    }
    out
}

} // verus!

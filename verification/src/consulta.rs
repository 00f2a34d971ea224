//! La consulta de activos y su traducción a SQL.
//!
//! `construir` es una función pura: recibe la consulta y devuelve el SQL y sus
//! parámetros, sin tocar la base. Así se demuestra que un filtro apagado no
//! añade cláusula y que uno encendido añade exactamente la suya.

use vstd::prelude::*;

use crate::activos::{codigo_de, AssetType};
use crate::orden::{creciente, insertar_unico, vistas};
use crate::texto::{caracteres, de_caracteres, empujar, recortar_blancos, sin_blancos};

verus! {

// ---------------------------------------------------------------------------
// Normalización de texto
// ---------------------------------------------------------------------------

/// Las minúsculas de un carácter según la tabla Unicode de la biblioteca
/// estándar: uno o varios caracteres.
pub uninterp spec fn minusculas_de(c: char) -> Seq<char>;

/// `char::to_lowercase`. El contrato dice que el resultado es el que nombra
/// `minusculas_de`.
#[verifier::external_body]
fn minusculas(c: char) -> (r: Vec<char>)
    ensures
        r@ == minusculas_de(c),
{
    c.to_lowercase().collect()
}

/// Quita el acento de las vocales acentuadas, de `ñ` y de `ç`.
pub open spec fn sin_acento(c: char) -> char {
    if c == 'á' || c == 'à' || c == 'ä' || c == 'â' || c == 'ã' || c == 'å' {
        'a'
    } else if c == 'é' || c == 'è' || c == 'ë' || c == 'ê' {
        'e'
    } else if c == 'í' || c == 'ì' || c == 'ï' || c == 'î' {
        'i'
    } else if c == 'ó' || c == 'ò' || c == 'ö' || c == 'ô' || c == 'õ' {
        'o'
    } else if c == 'ú' || c == 'ù' || c == 'ü' || c == 'û' {
        'u'
    } else if c == 'ñ' {
        'n'
    } else if c == 'ç' {
        'c'
    } else {
        c
    }
}

fn quitar_acento(c: char) -> (r: char)
    ensures
        r == sin_acento(c),
{
    match c {
        'á' | 'à' | 'ä' | 'â' | 'ã' | 'å' => 'a',
        'é' | 'è' | 'ë' | 'ê' => 'e',
        'í' | 'ì' | 'ï' | 'î' => 'i',
        'ó' | 'ò' | 'ö' | 'ô' | 'õ' => 'o',
        'ú' | 'ù' | 'ü' | 'û' => 'u',
        'ñ' => 'n',
        'ç' => 'c',
        otro => otro,
    }
}

/// Minúsculas y sin acentos, carácter a carácter.
pub open spec fn normalizado(s: Seq<char>) -> Seq<char>
    decreases s.len(),
{
    if s.len() == 0 {
        Seq::empty()
    } else {
        normalizado(s.drop_last()) + minusculas_de(s.last()).map_values(|l: char| sin_acento(l))
    }
}

/// Minúsculas y sin acentos.
///
/// No se usa una tabla Unicode completa: las vocales acentuadas más `ñ` y `ç`
/// cubren castellano, catalán, portugués y francés, y `to_lowercase` hace el
/// resto.
pub fn normalizar(s: &str) -> (r: String)
    ensures
        r@ == normalizado(s@),
{
    let cs = caracteres(s);
    let mut out = String::new();
    let mut i: usize = 0;
    assert(cs@.take(0) =~= Seq::<char>::empty());
    while i < cs.len()
        invariant
            i <= cs@.len(),
            out@ == normalizado(cs@.take(i as int)),
        decreases cs@.len() - i,
    {
        let ls = minusculas(cs[i]);
        let ghost antes = out@;
        let mut j: usize = 0;
        assert(ls@.map_values(|l: char| sin_acento(l)).take(0) =~= Seq::<char>::empty());
        while j < ls.len()
            invariant
                j <= ls@.len(),
                out@ == antes + ls@.map_values(|l: char| sin_acento(l)).take(j as int),
            decreases ls@.len() - j,
        {
            empujar(&mut out, quitar_acento(ls[j]));
            assert(ls@.map_values(|l: char| sin_acento(l)).take(j + 1) =~= ls@.map_values(
                |l: char| sin_acento(l),
            ).take(j as int).push(sin_acento(ls@[j as int])));
            j = j + 1;
        }
        proof {
            assert(ls@.map_values(|l: char| sin_acento(l)).take(ls@.len() as int) =~= ls@.map_values(
                |l: char| sin_acento(l),
            ));
            assert(cs@.take(i + 1).drop_last() =~= cs@.take(i as int));
            assert(cs@.take(i + 1).last() == cs@[i as int]);
        }
        i = i + 1;
    }
    assert(cs@.take(cs@.len() as int) =~= cs@);
    out
}

// ---------------------------------------------------------------------------
// Piezas del SQL
// ---------------------------------------------------------------------------

/// El texto con sus comodines escapados.
pub open spec fn escapado(t: Seq<char>) -> Seq<char>
    decreases t.len(),
{
    if t.len() == 0 {
        Seq::empty()
    } else {
        let c = t.last();
        escapado(t.drop_last()) + if c == '%' || c == '_' || c == '\\' {
            seq!['\\', c]
        } else {
            seq![c]
        }
    }
}

/// El patrón `LIKE` de una búsqueda: el texto escapado entre comodines.
pub open spec fn patron(t: Seq<char>) -> Seq<char> {
    seq!['%'] + escapado(t) + seq!['%']
}

/// Envuelve el texto en comodines y escapa los que traiga el usuario. Sin esto,
/// buscar "50%" devolvería medio almacén.
pub fn patron_like(t: &str) -> (r: String)
    ensures
        r@ == patron(t@),
{
    let cs = caracteres(t);
    let mut p = String::new();
    empujar(&mut p, '%');
    let mut i: usize = 0;
    assert(cs@.take(0) =~= Seq::<char>::empty());
    while i < cs.len()
        invariant
            i <= cs@.len(),
            p@ == seq!['%'] + escapado(cs@.take(i as int)),
        decreases cs@.len() - i,
    {
        let c = cs[i];
        if c == '%' || c == '_' || c == '\\' {
            empujar(&mut p, '\\');
        }
        empujar(&mut p, c);
        proof {
            assert(cs@.take(i + 1).drop_last() =~= cs@.take(i as int));
            assert(cs@.take(i + 1).last() == c);
        }
        i = i + 1;
        assert(p@ =~= seq!['%'] + escapado(cs@.take(i as int)));
    }
    empujar(&mut p, '%');
    assert(cs@.take(cs@.len() as int) =~= cs@);
    assert(p@ =~= patron(t@));
    p
}

/// `n` huecos de parámetro separados por comas: `?,?,?`.
pub open spec fn huecos_de(n: nat) -> Seq<char>
    decreases n,
{
    if n == 0 {
        Seq::empty()
    } else if n == 1 {
        seq!['?']
    } else {
        huecos_de((n - 1) as nat) + seq![',', '?']
    }
}

pub fn huecos(n: usize) -> (r: String)
    ensures
        r@ == huecos_de(n as nat),
{
    let mut s = String::new();
    let mut i: usize = 0;
    while i < n
        invariant
            i <= n,
            s@ == huecos_de(i as nat),
        decreases n - i,
    {
        if i > 0 {
            empujar(&mut s, ',');
        }
        empujar(&mut s, '?');
        i = i + 1;
        assert(s@ =~= huecos_de(i as nat));
    }
    s
}

/// `u64` a `i64` saturando, no truncando.
///
/// Los enteros de SQLite son `i64`. Un `as i64` a secas convierte `u64::MAX`
/// en `-1`, y `size_between(0, u64::MAX)` se volvería `BETWEEN 0 AND -1`, que no
/// encuentra nada. Saturar es correcto: ningún archivo mide más de `i64::MAX`.
pub fn a_i64_saturado(v: u64) -> (r: i64)
    ensures
        r == (if v > i64::MAX as u64 {
            i64::MAX as int
        } else {
            v as int
        }),
{
    if v > i64::MAX as u64 {
        i64::MAX
    } else {
        v as i64
    }
}

// ---------------------------------------------------------------------------
// La consulta
// ---------------------------------------------------------------------------

/// Filtros de búsqueda. Todos son opcionales y se combinan con Y lógico. La
/// consulta por defecto no filtra nada.
#[derive(Clone, Debug)]
pub struct AssetQuery {
    /// Subcadena buscada en el nombre y en las notas, sin distinguir
    /// mayúsculas ni acentos.
    pub text: Option<String>,
    /// El activo tiene todas estas etiquetas.
    pub all_tags: Vec<String>,
    /// El activo tiene alguna de estas etiquetas.
    pub any_tags: Vec<String>,
    /// El activo es de alguno de estos tipos.
    pub types: Vec<AssetType>,
    /// Rango inclusivo de fecha de importación, en milisegundos epoch.
    pub imported: Option<(i64, i64)>,
    /// Rango inclusivo de fecha de modificación, en milisegundos epoch.
    pub modified: Option<(i64, i64)>,
    /// Rango inclusivo de tamaño del contenido vigente, en bytes.
    pub size: Option<(u64, u64)>,
    /// Tope de resultados.
    pub limit: Option<u32>,
}

impl AssetQuery {
    /// Ningún filtro.
    pub open spec fn vacia(&self) -> bool {
        &&& self.text is None
        &&& self.all_tags@.len() == 0
        &&& self.any_tags@.len() == 0
        &&& self.types@.len() == 0
        &&& self.imported is None
        &&& self.modified is None
        &&& self.size is None
        &&& self.limit is None
    }

    pub fn new() -> (r: AssetQuery)
        ensures
            r.vacia(),
    {
        AssetQuery {
            text: None,
            all_tags: Vec::new(),
            any_tags: Vec::new(),
            types: Vec::new(),
            imported: None,
            modified: None,
            size: None,
            limit: None,
        }
    }

    pub fn with_text(self, t: &str) -> (r: AssetQuery)
        ensures
            r.text matches Some(s) && s@ == t@,
            r.all_tags == self.all_tags && r.any_tags == self.any_tags && r.types == self.types,
            r.imported == self.imported && r.modified == self.modified,
            r.size == self.size && r.limit == self.limit,
    {
        AssetQuery { text: Some(String::from_str(t)), ..self }
    }

    pub fn with_all_tags(self, tags: Vec<String>) -> (r: AssetQuery)
        ensures
            r.all_tags == tags,
            r.text == self.text && r.any_tags == self.any_tags && r.types == self.types,
            r.imported == self.imported && r.modified == self.modified,
            r.size == self.size && r.limit == self.limit,
    {
        AssetQuery { all_tags: tags, ..self }
    }

    pub fn with_any_tags(self, tags: Vec<String>) -> (r: AssetQuery)
        ensures
            r.any_tags == tags,
            r.text == self.text && r.all_tags == self.all_tags && r.types == self.types,
            r.imported == self.imported && r.modified == self.modified,
            r.size == self.size && r.limit == self.limit,
    {
        AssetQuery { any_tags: tags, ..self }
    }

    pub fn with_types(self, tipos: Vec<AssetType>) -> (r: AssetQuery)
        ensures
            r.types == tipos,
            r.text == self.text && r.all_tags == self.all_tags && r.any_tags == self.any_tags,
            r.imported == self.imported && r.modified == self.modified,
            r.size == self.size && r.limit == self.limit,
    {
        AssetQuery { types: tipos, ..self }
    }

    pub fn imported_between(self, desde: i64, hasta: i64) -> (r: AssetQuery)
        ensures
            r.imported == Some((desde, hasta)),
            r.text == self.text && r.all_tags == self.all_tags && r.any_tags == self.any_tags,
            r.types == self.types && r.modified == self.modified,
            r.size == self.size && r.limit == self.limit,
    {
        AssetQuery { imported: Some((desde, hasta)), ..self }
    }

    pub fn modified_between(self, desde: i64, hasta: i64) -> (r: AssetQuery)
        ensures
            r.modified == Some((desde, hasta)),
            r.text == self.text && r.all_tags == self.all_tags && r.any_tags == self.any_tags,
            r.types == self.types && r.imported == self.imported,
            r.size == self.size && r.limit == self.limit,
    {
        AssetQuery { modified: Some((desde, hasta)), ..self }
    }

    pub fn size_between(self, desde: u64, hasta: u64) -> (r: AssetQuery)
        ensures
            r.size == Some((desde, hasta)),
            r.text == self.text && r.all_tags == self.all_tags && r.any_tags == self.any_tags,
            r.types == self.types && r.imported == self.imported,
            r.modified == self.modified && r.limit == self.limit,
    {
        AssetQuery { size: Some((desde, hasta)), ..self }
    }

    pub fn with_limit(self, n: u32) -> (r: AssetQuery)
        ensures
            r.limit == Some(n),
            r.text == self.text && r.all_tags == self.all_tags && r.any_tags == self.any_tags,
            r.types == self.types && r.imported == self.imported,
            r.modified == self.modified && r.size == self.size,
    {
        AssetQuery { limit: Some(n), ..self }
    }
}

impl Default for AssetQuery {
    fn default() -> (r: AssetQuery)
        ensures
            r.vacia(),
    {
        AssetQuery::new()
    }
}

// ---------------------------------------------------------------------------
// Traducción a SQL
// ---------------------------------------------------------------------------

/// Un parámetro ligado a la consulta.
#[derive(Clone, Debug)]
pub enum ValorSql {
    Entero(i64),
    Texto(String),
}

/// Un parámetro visto como valor: `(es_texto, entero, texto)`.
pub open spec fn entero(n: int) -> (bool, int, Seq<char>) {
    (false, n, Seq::empty())
}

pub open spec fn texto(s: Seq<char>) -> (bool, int, Seq<char>) {
    (true, 0, s)
}

impl View for ValorSql {
    type V = (bool, int, Seq<char>);

    open spec fn view(&self) -> (bool, int, Seq<char>) {
        match self {
            ValorSql::Entero(n) => entero(*n as int),
            ValorSql::Texto(s) => texto(s@),
        }
    }
}

pub open spec fn vista_params(v: Seq<ValorSql>) -> Seq<(bool, int, Seq<char>)> {
    Seq::new(v.len(), |i: int| v[i]@)
}

/// El texto buscado, si hay alguno que no sea solo espacio.
pub open spec fn texto_buscado(q: AssetQuery) -> Option<Seq<char>> {
    match q.text {
        Some(t) => if sin_blancos(t@).len() > 0 {
            Some(sin_blancos(t@))
        } else {
            None
        },
        None => None,
    }
}

/// Las etiquetas normalizadas de una lista.
pub open spec fn normalizadas(v: Seq<String>) -> Seq<Seq<char>> {
    Seq::new(v.len(), |i: int| normalizado(v[i]@))
}

/// `t` es el conjunto de las etiquetas de `v`, normalizadas, en orden.
pub open spec fn conjunto_de_etiquetas(t: Seq<Seq<char>>, v: Seq<String>) -> bool {
    creciente(t) && t.to_set() == normalizadas(v).to_set()
}

pub open spec fn si(c: bool, s: Seq<char>) -> Seq<char> {
    if c {
        s
    } else {
        Seq::empty()
    }
}

/// La cláusula de texto.
pub open spec fn sql_texto(q: AssetQuery) -> Seq<char> {
    si(
        texto_buscado(q) is Some,
        " AND (a.nombre_norm LIKE ? ESCAPE '\\' OR a.notas_norm LIKE ? ESCAPE '\\')"@,
    )
}

/// La cláusula de tipos.
pub open spec fn sql_tipos(q: AssetQuery) -> Seq<char> {
    si(q.types@.len() > 0, " AND a.tipo IN ("@ + huecos_de(q.types@.len()) + ")"@)
}

/// Las cláusulas de rango: importación, modificación y tamaño.
pub open spec fn sql_rangos(q: AssetQuery) -> Seq<char> {
    si(q.imported is Some, " AND a.importado BETWEEN ? AND ?"@) + si(
        q.modified is Some,
        " AND a.modificado BETWEEN ? AND ?"@,
    ) + si(q.size is Some, " AND a.tam BETWEEN ? AND ?"@)
}

/// La cláusula de etiquetas obligatorias, para `nt` etiquetas distintas.
pub open spec fn sql_todas(nt: nat) -> Seq<char> {
    si(
        nt > 0,
        " AND (SELECT COUNT(*) FROM etiquetas e WHERE e.id = a.id AND e.etiqueta IN ("@
            + huecos_de(nt) + ")) = ?"@,
    )
}

/// La cláusula de etiquetas opcionales, para `na` etiquetas distintas.
pub open spec fn sql_alguna(na: nat) -> Seq<char> {
    si(
        na > 0,
        " AND EXISTS (SELECT 1 FROM etiquetas e WHERE e.id = a.id AND e.etiqueta IN ("@
            + huecos_de(na) + "))"@,
    )
}

/// El orden y el tope.
pub open spec fn sql_final(q: AssetQuery) -> Seq<char> {
    " ORDER BY a.id"@ + si(q.limit is Some, " LIMIT ?"@)
}

/// El SQL de una consulta con `nt` etiquetas obligatorias y `na` opcionales
/// distintas.
pub open spec fn sql_de(q: AssetQuery, nt: nat, na: nat) -> Seq<char> {
    "SELECT a.id FROM activos a WHERE 1=1"@ + sql_texto(q) + sql_tipos(q) + sql_rangos(q)
        + sql_todas(nt) + sql_alguna(na) + sql_final(q)
}

pub open spec fn saturado(v: u64) -> int {
    if v > i64::MAX as u64 {
        i64::MAX as int
    } else {
        v as int
    }
}

pub open spec fn textos(t: Seq<Seq<char>>) -> Seq<(bool, int, Seq<char>)> {
    Seq::new(t.len(), |i: int| texto(t[i]))
}

pub open spec fn params_texto(q: AssetQuery) -> Seq<(bool, int, Seq<char>)> {
    match texto_buscado(q) {
        Some(tb) => seq![texto(patron(normalizado(tb))), texto(patron(normalizado(tb)))],
        None => Seq::empty(),
    }
}

pub open spec fn params_tipos(q: AssetQuery) -> Seq<(bool, int, Seq<char>)> {
    Seq::new(q.types@.len(), |i: int| entero(codigo_de(q.types@[i]) as int))
}

pub open spec fn params_rangos(q: AssetQuery) -> Seq<(bool, int, Seq<char>)> {
    let p_imp = match q.imported {
        Some((d, h)) => seq![entero(d as int), entero(h as int)],
        None => Seq::empty(),
    };
    let p_mod = match q.modified {
        Some((d, h)) => seq![entero(d as int), entero(h as int)],
        None => Seq::empty(),
    };
    let p_tam = match q.size {
        Some((d, h)) => seq![entero(saturado(d)), entero(saturado(h))],
        None => Seq::empty(),
    };
    p_imp + p_mod + p_tam
}

pub open spec fn params_todas(t: Seq<Seq<char>>) -> Seq<(bool, int, Seq<char>)> {
    if t.len() > 0 {
        textos(t).push(entero((t.len() as i64) as int))
    } else {
        Seq::empty()
    }
}

pub open spec fn params_final(q: AssetQuery) -> Seq<(bool, int, Seq<char>)> {
    match q.limit {
        Some(n) => seq![entero(n as int)],
        None => Seq::empty(),
    }
}

/// Los parámetros de una consulta, en el orden de sus huecos.
pub open spec fn params_de(q: AssetQuery, t: Seq<Seq<char>>, a: Seq<Seq<char>>) -> Seq<
    (bool, int, Seq<char>),
> {
    params_texto(q) + params_tipos(q) + params_rangos(q) + params_todas(t) + textos(a)
        + params_final(q)
}

/// El conjunto ordenado de las etiquetas normalizadas de `v`.
fn etiquetas_normalizadas(v: &Vec<String>) -> (r: Vec<String>)
    ensures
        conjunto_de_etiquetas(vistas(r@), v@),
{
    let mut out: Vec<String> = Vec::new();
    let mut i: usize = 0;
    assert(vistas(out@) =~= Seq::<Seq<char>>::empty());
    assert(normalizadas(v@).take(0) =~= Seq::<Seq<char>>::empty());
    while i < v.len()
        invariant
            i <= v@.len(),
            creciente(vistas(out@)),
            vistas(out@).to_set() == normalizadas(v@).take(i as int).to_set(),
        decreases v@.len() - i,
    {
        let t = normalizar(v[i].as_str());
        proof {
            assert(normalizadas(v@).take(i + 1) =~= normalizadas(v@).take(i as int).push(t@));
            normalizadas(v@).take(i as int).lemma_push_to_set_commute(t@);
        }
        insertar_unico(&mut out, t);
        i = i + 1;
    }
    assert(normalizadas(v@).take(v@.len() as int) =~= normalizadas(v@));
    out
}

/// Añade un parámetro de texto.
fn empujar_texto(p: &mut Vec<ValorSql>, s: String)
    ensures
        vista_params(final(p)@) == vista_params(old(p)@).push(texto(s@)),
{
    p.push(ValorSql::Texto(s));
    assert(vista_params(p@) =~= vista_params(old(p)@).push(texto(s@)));
}

/// Añade un parámetro entero.
fn empujar_entero(p: &mut Vec<ValorSql>, n: i64)
    ensures
        vista_params(final(p)@) == vista_params(old(p)@).push(entero(n as int)),
{
    p.push(ValorSql::Entero(n));
    assert(vista_params(p@) =~= vista_params(old(p)@).push(entero(n as int)));
}

/// Añade las etiquetas como parámetros de texto.
fn empujar_etiquetas(p: &mut Vec<ValorSql>, t: &Vec<String>)
    ensures
        vista_params(final(p)@) == vista_params(old(p)@) + textos(vistas(t@)),
{
    let mut i: usize = 0;
    while i < t.len()
        invariant
            i <= t@.len(),
            vista_params(p@) == vista_params(old(p)@) + textos(vistas(t@)).take(i as int),
        decreases t@.len() - i,
    {
        empujar_texto(p, t[i].clone());
        assert(textos(vistas(t@)).take(i + 1) =~= textos(vistas(t@)).take(i as int).push(
            texto(t@[i as int]@),
        ));
        i = i + 1;
    }
    assert(textos(vistas(t@)).take(t@.len() as int) =~= textos(vistas(t@)));
}

fn poner_texto(q: &AssetQuery, sql: &mut String, p: &mut Vec<ValorSql>)
    ensures
        final(sql)@ == old(sql)@ + sql_texto(*q),
        vista_params(final(p)@) == vista_params(old(p)@) + params_texto(*q),
{
    match &q.text {
        Some(t) => {
            let recortado = recortar_blancos(&caracteres(t.as_str()));
            if recortado.len() > 0 {
                let tr = de_caracteres(&recortado);
                sql.append(
                    " AND (a.nombre_norm LIKE ? ESCAPE '\\' OR a.notas_norm LIKE ? ESCAPE '\\')",
                );
                let pat = patron_like(normalizar(tr.as_str()).as_str());
                empujar_texto(p, pat.clone());
                empujar_texto(p, pat);
            }
        },
        None => {},
    }
    assert(sql@ =~= old(sql)@ + sql_texto(*q));
    assert(vista_params(p@) =~= vista_params(old(p)@) + params_texto(*q));
}

fn poner_tipos(q: &AssetQuery, sql: &mut String, p: &mut Vec<ValorSql>)
    ensures
        final(sql)@ == old(sql)@ + sql_tipos(*q),
        vista_params(final(p)@) == vista_params(old(p)@) + params_tipos(*q),
{
    if q.types.len() > 0 {
        sql.append(" AND a.tipo IN (");
        let h = huecos(q.types.len());
        sql.append(h.as_str());
        sql.append(")");
    }
    assert(sql@ =~= old(sql)@ + sql_tipos(*q));
    let ghost p0 = vista_params(p@);
    let mut i: usize = 0;
    while i < q.types.len()
        invariant
            i <= q.types@.len(),
            vista_params(p@) == p0 + Seq::new(i as nat, |k: int| entero(codigo_de(q.types@[k]) as int)),
        decreases q.types@.len() - i,
    {
        let c = q.types[i].code();
        empujar_entero(p, c as i64);
        i = i + 1;
        assert(vista_params(p@) =~= p0 + Seq::new(
            i as nat,
            |k: int| entero(codigo_de(q.types@[k]) as int),
        ));
    }
    assert(Seq::new(q.types@.len(), |k: int| entero(codigo_de(q.types@[k]) as int)) =~= params_tipos(*q));
}

fn poner_rangos(q: &AssetQuery, sql: &mut String, p: &mut Vec<ValorSql>)
    ensures
        final(sql)@ == old(sql)@ + sql_rangos(*q),
        vista_params(final(p)@) == vista_params(old(p)@) + params_rangos(*q),
{
    match q.imported {
        Some((d, h)) => {
            sql.append(" AND a.importado BETWEEN ? AND ?");
            empujar_entero(p, d);
            empujar_entero(p, h);
        },
        None => {},
    }
    match q.modified {
        Some((d, h)) => {
            sql.append(" AND a.modificado BETWEEN ? AND ?");
            empujar_entero(p, d);
            empujar_entero(p, h);
        },
        None => {},
    }
    match q.size {
        Some((d, h)) => {
            sql.append(" AND a.tam BETWEEN ? AND ?");
            empujar_entero(p, a_i64_saturado(d));
            empujar_entero(p, a_i64_saturado(h));
        },
        None => {},
    }
    assert(sql@ =~= old(sql)@ + sql_rangos(*q));
    assert(vista_params(p@) =~= vista_params(old(p)@) + params_rangos(*q));
}

fn poner_todas(todas: &Vec<String>, sql: &mut String, p: &mut Vec<ValorSql>)
    ensures
        final(sql)@ == old(sql)@ + sql_todas(todas@.len()),
        vista_params(final(p)@) == vista_params(old(p)@) + params_todas(vistas(todas@)),
{
    if todas.len() > 0 {
        sql.append(
            " AND (SELECT COUNT(*) FROM etiquetas e WHERE e.id = a.id AND e.etiqueta IN (",
        );
        let h = huecos(todas.len());
        sql.append(h.as_str());
        sql.append(")) = ?");
        empujar_etiquetas(p, todas);
        empujar_entero(p, todas.len() as i64);
    }
    assert(sql@ =~= old(sql)@ + sql_todas(todas@.len()));
    assert(vista_params(p@) =~= vista_params(old(p)@) + params_todas(vistas(todas@)));
}

fn poner_alguna(alguna: &Vec<String>, sql: &mut String, p: &mut Vec<ValorSql>)
    ensures
        final(sql)@ == old(sql)@ + sql_alguna(alguna@.len()),
        vista_params(final(p)@) == vista_params(old(p)@) + textos(vistas(alguna@)),
{
    if alguna.len() > 0 {
        sql.append(" AND EXISTS (SELECT 1 FROM etiquetas e WHERE e.id = a.id AND e.etiqueta IN (");
        let h = huecos(alguna.len());
        sql.append(h.as_str());
        sql.append("))");
        empujar_etiquetas(p, alguna);
    } else {
        assert(textos(vistas(alguna@)) =~= Seq::<(bool, int, Seq<char>)>::empty());
    }
    assert(sql@ =~= old(sql)@ + sql_alguna(alguna@.len()));
    assert(vista_params(p@) =~= vista_params(old(p)@) + textos(vistas(alguna@)));
}

fn poner_final(q: &AssetQuery, sql: &mut String, p: &mut Vec<ValorSql>)
    ensures
        final(sql)@ == old(sql)@ + sql_final(*q),
        vista_params(final(p)@) == vista_params(old(p)@) + params_final(*q),
{
    sql.append(" ORDER BY a.id");
    match q.limit {
        Some(n) => {
            sql.append(" LIMIT ?");
            empujar_entero(p, n as i64);
        },
        None => {},
    }
    assert(sql@ =~= old(sql)@ + sql_final(*q));
    assert(vista_params(p@) =~= vista_params(old(p)@) + params_final(*q));
}

/// Traduce la consulta a SQL con parámetros ligados.
///
/// El orden del resultado es por `id`, que al ser un ULID es el orden de
/// importación. Las etiquetas repetidas (tras normalizar) cuentan una vez.
pub fn construir(q: &AssetQuery) -> (r: (String, Vec<ValorSql>))
    ensures
        exists|t: Seq<Seq<char>>, a: Seq<Seq<char>>|
            {
                &&& conjunto_de_etiquetas(t, q.all_tags@)
                &&& conjunto_de_etiquetas(a, q.any_tags@)
                &&& r.0@ == sql_de(*q, t.len(), a.len())
                &&& vista_params(r.1@) == params_de(*q, t, a)
            },
{
    let mut sql = String::from_str("SELECT a.id FROM activos a WHERE 1=1");
    let mut p: Vec<ValorSql> = Vec::new();
    assert(vista_params(p@) =~= Seq::<(bool, int, Seq<char>)>::empty());
    poner_texto(q, &mut sql, &mut p);
    poner_tipos(q, &mut sql, &mut p);
    poner_rangos(q, &mut sql, &mut p);
    let todas = etiquetas_normalizadas(&q.all_tags);
    poner_todas(&todas, &mut sql, &mut p);
    let alguna = etiquetas_normalizadas(&q.any_tags);
    poner_alguna(&alguna, &mut sql, &mut p);
    poner_final(q, &mut sql, &mut p);
    proof {
        let t = vistas(todas@);
        let a = vistas(alguna@);
        assert(sql@ =~= sql_de(*q, t.len(), a.len()));
        assert(vista_params(p@) =~= params_de(*q, t, a));
    }
    (sql, p)
}


/// Las letras acentuadas que la búsqueda ignora.
pub open spec fn acentuada(c: char) -> bool {
    ||| c == 'á' || c == 'à' || c == 'ä' || c == 'â' || c == 'ã' || c == 'å'
    ||| c == 'é' || c == 'è' || c == 'ë' || c == 'ê'
    ||| c == 'í' || c == 'ì' || c == 'ï' || c == 'î'
    ||| c == 'ó' || c == 'ò' || c == 'ö' || c == 'ô' || c == 'õ'
    ||| c == 'ú' || c == 'ù' || c == 'ü' || c == 'û'
    ||| c == 'ñ' || c == 'ç'
}

/// Quitar el acento deja la letra desnuda: cada vocal acentuada se vuelve su
/// vocal, `ñ` se vuelve `n` y `ç` se vuelve `c`; ningún resultado lleva
/// acento, y lo que no lo llevaba no cambia.
pub proof fn ley_quitar_acento(c: char)
    ensures
        (c == 'á' || c == 'à' || c == 'ä' || c == 'â' || c == 'ã' || c == 'å') ==> sin_acento(c) == 'a',
        (c == 'é' || c == 'è' || c == 'ë' || c == 'ê') ==> sin_acento(c) == 'e',
        (c == 'í' || c == 'ì' || c == 'ï' || c == 'î') ==> sin_acento(c) == 'i',
        (c == 'ó' || c == 'ò' || c == 'ö' || c == 'ô' || c == 'õ') ==> sin_acento(c) == 'o',
        (c == 'ú' || c == 'ù' || c == 'ü' || c == 'û') ==> sin_acento(c) == 'u',
        c == 'ñ' ==> sin_acento(c) == 'n',
        c == 'ç' ==> sin_acento(c) == 'c',
        !acentuada(sin_acento(c)),
        !acentuada(c) ==> sin_acento(c) == c,
{
}

/// El texto normalizado para buscar no lleva ninguna letra acentuada, sea
/// cual sea el texto y lo que den sus minúsculas: buscar `Café` encuentra
/// `cafe`.
pub proof fn ley_normalizado_sin_acentos(s: Seq<char>)
    ensures
        forall|i: int| 0 <= i < normalizado(s).len() ==> !acentuada(#[trigger] normalizado(s)[i]),
    decreases s.len(),
{
    if s.len() > 0 {
        ley_normalizado_sin_acentos(s.drop_last());
        let p = normalizado(s.drop_last());
        let m = minusculas_de(s.last()).map_values(|l: char| sin_acento(l));
        assert forall|i: int| 0 <= i < normalizado(s).len() implies !acentuada(#[trigger] normalizado(s)[i]) by {
            if i < p.len() {
                assert(normalizado(s)[i] == p[i]);
            } else {
                assert(normalizado(s)[i] == m[i - p.len()]);
                ley_quitar_acento(minusculas_de(s.last())[i - p.len()]);
            }
        }
    }
}

} // verus!

//! Cómo se aplica un registro del diario al índice.
//!
//! El índice es una base SQLite derivada: reproducir el diario en orden la
//! reconstruye. Lo que aquí se decide es, para cada registro, qué sentencias
//! se ejecutan y con qué parámetros; ejecutarlas es E/S y queda fuera.

use vstd::prelude::*;

use crate::activos::{codigo_de, AssetError, Registro};
use crate::consulta::{normalizado, normalizar};
use crate::texto::{anadir, de_caracteres, decimal, empujar_decimal};

verus! {

/// Un parámetro ligado a una sentencia.
#[derive(Clone, Debug)]
pub enum Parametro {
    Entero(i64),
    Texto(String),
    Nulo,
}

/// Un parámetro como valor.
pub enum ValorParametro {
    Entero(int),
    Texto(Seq<char>),
    Nulo,
}

impl View for Parametro {
    type V = ValorParametro;

    open spec fn view(&self) -> ValorParametro {
        match self {
            Parametro::Entero(n) => ValorParametro::Entero(*n as int),
            Parametro::Texto(s) => ValorParametro::Texto(s@),
            Parametro::Nulo => ValorParametro::Nulo,
        }
    }
}

/// Las sentencias con que se escribe el índice.
#[derive(Clone, Copy, PartialEq, Eq, Structural, Debug)]
pub enum Sentencia {
    /// Alta o nueva versión de un activo. La fecha de importación solo se
    /// fija en el alta: en las versiones siguientes el `ON CONFLICT` no la
    /// toca.
    AltaActivo,
    AltaVersion,
    /// Cambia la versión vigente, solo si esa versión existe.
    FijarVigente,
    CambiarMeta,
    QuitarEtiquetas,
    AnadirEtiqueta,
    /// Pone una etiqueta, solo si el activo existe.
    PonerEtiqueta,
    QuitarEtiqueta,
    Tocar,
    PonerMiniatura,
    /// Pone una dependencia, solo si existen los dos activos.
    PonerDependencia,
    QuitarDependencia,
    BorrarActivo,
    BorrarVersiones,
    BorrarDependencias,
}

impl Sentencia {
    /// El texto SQL de la sentencia; `?1`, `?2`, … son sus parámetros.
    pub fn sql(self) -> (r: &'static str)
        ensures
            r@ == texto_sql(self),
    {
        match self {
            Sentencia::AltaActivo => "INSERT INTO activos
                   (id, nombre, nombre_norm, tipo, notas, notas_norm, tam,
                    importado, modificado, origen, version_vigente, hash_vigente, miniatura)
                 VALUES (?1, ?2, ?3, ?4, ?5, ?6, ?7, ?8, ?8, ?9, ?10, ?11, NULL)
                 ON CONFLICT(id) DO UPDATE SET
                   nombre          = excluded.nombre,
                   nombre_norm     = excluded.nombre_norm,
                   tipo            = excluded.tipo,
                   notas           = excluded.notas,
                   notas_norm      = excluded.notas_norm,
                   tam             = excluded.tam,
                   modificado      = excluded.modificado,
                   origen          = excluded.origen,
                   version_vigente = excluded.version_vigente,
                   hash_vigente    = excluded.hash_vigente",
            Sentencia::AltaVersion => "INSERT OR REPLACE INTO versiones(id, version, hash, tam, creada)
                 VALUES(?1, ?2, ?3, ?4, ?5)",
            Sentencia::FijarVigente => "UPDATE activos SET
                   version_vigente = ?2,
                   modificado      = ?3,
                   hash_vigente    = (SELECT hash FROM versiones WHERE id = ?1 AND version = ?2),
                   tam             = (SELECT tam  FROM versiones WHERE id = ?1 AND version = ?2)
                 WHERE id = ?1
                   AND EXISTS (SELECT 1 FROM versiones WHERE id = ?1 AND version = ?2)",
            Sentencia::CambiarMeta => "UPDATE activos SET
                       nombre = ?2, nombre_norm = ?3, tipo = ?4,
                       notas = ?5, notas_norm = ?6, modificado = ?7
                     WHERE id = ?1",
            Sentencia::QuitarEtiquetas => "DELETE FROM etiquetas WHERE id = ?1",
            Sentencia::AnadirEtiqueta => "INSERT OR IGNORE INTO etiquetas(id, etiqueta) VALUES(?1, ?2)",
            Sentencia::PonerEtiqueta => "INSERT OR IGNORE INTO etiquetas(id, etiqueta)
                     SELECT ?1, ?2 WHERE EXISTS (SELECT 1 FROM activos WHERE id = ?1)",
            Sentencia::QuitarEtiqueta => "DELETE FROM etiquetas WHERE id = ?1 AND etiqueta = ?2",
            Sentencia::Tocar => "UPDATE activos SET modificado = ?2 WHERE id = ?1",
            Sentencia::PonerMiniatura => "UPDATE activos SET miniatura = ?2, modificado = ?3 WHERE id = ?1",
            Sentencia::PonerDependencia => "INSERT OR IGNORE INTO dependencias(de, a)
                     SELECT ?1, ?2
                      WHERE EXISTS (SELECT 1 FROM activos WHERE id = ?1)
                        AND EXISTS (SELECT 1 FROM activos WHERE id = ?2)",
            Sentencia::QuitarDependencia => "DELETE FROM dependencias WHERE de = ?1 AND a = ?2",
            Sentencia::BorrarActivo => "DELETE FROM activos WHERE id = ?1",
            Sentencia::BorrarVersiones => "DELETE FROM versiones WHERE id = ?1",
            Sentencia::BorrarDependencias => "DELETE FROM dependencias WHERE de = ?1 OR a = ?1",
        }
    }
}

/// El texto de cada sentencia.
pub open spec fn texto_sql(s: Sentencia) -> Seq<char> {
    match s {
        Sentencia::AltaActivo => "INSERT INTO activos
                   (id, nombre, nombre_norm, tipo, notas, notas_norm, tam,
                    importado, modificado, origen, version_vigente, hash_vigente, miniatura)
                 VALUES (?1, ?2, ?3, ?4, ?5, ?6, ?7, ?8, ?8, ?9, ?10, ?11, NULL)
                 ON CONFLICT(id) DO UPDATE SET
                   nombre          = excluded.nombre,
                   nombre_norm     = excluded.nombre_norm,
                   tipo            = excluded.tipo,
                   notas           = excluded.notas,
                   notas_norm      = excluded.notas_norm,
                   tam             = excluded.tam,
                   modificado      = excluded.modificado,
                   origen          = excluded.origen,
                   version_vigente = excluded.version_vigente,
                   hash_vigente    = excluded.hash_vigente"@,
        Sentencia::AltaVersion => "INSERT OR REPLACE INTO versiones(id, version, hash, tam, creada)
                 VALUES(?1, ?2, ?3, ?4, ?5)"@,
        Sentencia::FijarVigente => "UPDATE activos SET
                   version_vigente = ?2,
                   modificado      = ?3,
                   hash_vigente    = (SELECT hash FROM versiones WHERE id = ?1 AND version = ?2),
                   tam             = (SELECT tam  FROM versiones WHERE id = ?1 AND version = ?2)
                 WHERE id = ?1
                   AND EXISTS (SELECT 1 FROM versiones WHERE id = ?1 AND version = ?2)"@,
        Sentencia::CambiarMeta => "UPDATE activos SET
                       nombre = ?2, nombre_norm = ?3, tipo = ?4,
                       notas = ?5, notas_norm = ?6, modificado = ?7
                     WHERE id = ?1"@,
        Sentencia::QuitarEtiquetas => "DELETE FROM etiquetas WHERE id = ?1"@,
        Sentencia::AnadirEtiqueta => "INSERT OR IGNORE INTO etiquetas(id, etiqueta) VALUES(?1, ?2)"@,
        Sentencia::PonerEtiqueta => "INSERT OR IGNORE INTO etiquetas(id, etiqueta)
                     SELECT ?1, ?2 WHERE EXISTS (SELECT 1 FROM activos WHERE id = ?1)"@,
        Sentencia::QuitarEtiqueta => "DELETE FROM etiquetas WHERE id = ?1 AND etiqueta = ?2"@,
        Sentencia::Tocar => "UPDATE activos SET modificado = ?2 WHERE id = ?1"@,
        Sentencia::PonerMiniatura => "UPDATE activos SET miniatura = ?2, modificado = ?3 WHERE id = ?1"@,
        Sentencia::PonerDependencia => "INSERT OR IGNORE INTO dependencias(de, a)
                     SELECT ?1, ?2
                      WHERE EXISTS (SELECT 1 FROM activos WHERE id = ?1)
                        AND EXISTS (SELECT 1 FROM activos WHERE id = ?2)"@,
        Sentencia::QuitarDependencia => "DELETE FROM dependencias WHERE de = ?1 AND a = ?2"@,
        Sentencia::BorrarActivo => "DELETE FROM activos WHERE id = ?1"@,
        Sentencia::BorrarVersiones => "DELETE FROM versiones WHERE id = ?1"@,
        Sentencia::BorrarDependencias => "DELETE FROM dependencias WHERE de = ?1 OR a = ?1"@,
    }
}

/// Una sentencia con sus parámetros. Si `solo_si_hubo_filas`, se ejecuta
/// solo cuando la primera sentencia del plan cambió alguna fila.
#[derive(Clone, Debug)]
pub struct Orden {
    pub sentencia: Sentencia,
    pub params: Vec<Parametro>,
    pub solo_si_hubo_filas: bool,
}

/// Una orden como valor.
pub type OrdenV = (Sentencia, Seq<ValorParametro>, bool);

pub open spec fn vistas_p(ps: Seq<Parametro>) -> Seq<ValorParametro> {
    Seq::new(ps.len(), |j: int| ps[j]@)
}

pub open spec fn vista_orden(o: Orden) -> OrdenV {
    (o.sentencia, vistas_p(o.params@), o.solo_si_hubo_filas)
}

pub open spec fn vista_plan(p: Seq<Orden>) -> Seq<OrdenV> {
    Seq::new(p.len(), |i: int| vista_orden(p[i]))
}

pub open spec fn texto(s: Seq<char>) -> ValorParametro {
    ValorParametro::Texto(s)
}

pub open spec fn entero(n: int) -> ValorParametro {
    ValorParametro::Entero(n)
}

/// Las etiquetas de un activo se reemplazan: se quitan todas y se añaden las
/// dadas, en su orden.
pub open spec fn reemplazo_de_etiquetas(id: Seq<char>, tags: Seq<String>, cond: bool) -> Seq<OrdenV> {
    seq![(Sentencia::QuitarEtiquetas, seq![texto(id)], cond)] + Seq::new(
        tags.len(),
        |i: int| (Sentencia::AnadirEtiqueta, seq![texto(id), texto(tags[i]@)], cond),
    )
}

/// El plan de un registro, o el campo y el valor que no caben en el entero con
/// signo de SQLite.
pub open spec fn plan_de(r: Registro) -> Result<Seq<OrdenV>, (Seq<char>, u64)> {
    match r {
        Registro::Importado { id, version, hash, tam, origen, meta, ts } => {
            if tam > i64::MAX {
                Err(("tam"@, tam))
            } else if version > i64::MAX {
                Err(("version"@, version))
            } else {
                Ok(
                    seq![
                        (
                            Sentencia::AltaActivo,
                            seq![
                                texto(id@),
                                texto(meta.name@),
                                texto(normalizado(meta.name@)),
                                entero(codigo_de(meta.kind) as int),
                                texto(meta.notes@),
                                texto(normalizado(meta.notes@)),
                                entero(tam as int),
                                entero(ts as int),
                                texto(origen@),
                                entero(version as int),
                                texto(hash@),
                            ],
                            false,
                        ),
                        (
                            Sentencia::AltaVersion,
                            seq![
                                texto(id@),
                                entero(version as int),
                                texto(hash@),
                                entero(tam as int),
                                entero(ts as int),
                            ],
                            false,
                        ),
                    ] + reemplazo_de_etiquetas(id@, meta.tags@, false),
                )
            }
        },
        Registro::Vigente { id, version, ts } => {
            if version > i64::MAX {
                Err(("version"@, version))
            } else {
                Ok(
                    seq![
                        (
                            Sentencia::FijarVigente,
                            seq![texto(id@), entero(version as int), entero(ts as int)],
                            false,
                        ),
                    ],
                )
            }
        },
        Registro::Meta { id, meta, ts } => Ok(
            seq![
                (
                    Sentencia::CambiarMeta,
                    seq![
                        texto(id@),
                        texto(meta.name@),
                        texto(normalizado(meta.name@)),
                        entero(codigo_de(meta.kind) as int),
                        texto(meta.notes@),
                        texto(normalizado(meta.notes@)),
                        entero(ts as int),
                    ],
                    false,
                ),
            ] + reemplazo_de_etiquetas(id@, meta.tags@, true),
        ),
        Registro::Etiqueta { id, etiqueta, pon, ts } => Ok(
            seq![
                (
                    if pon {
                        Sentencia::PonerEtiqueta
                    } else {
                        Sentencia::QuitarEtiqueta
                    },
                    seq![texto(id@), texto(etiqueta@)],
                    false,
                ),
                (Sentencia::Tocar, seq![texto(id@), entero(ts as int)], false),
            ],
        ),
        Registro::Miniatura { id, hash, ts } => Ok(
            seq![
                (
                    Sentencia::PonerMiniatura,
                    seq![
                        texto(id@),
                        match hash {
                            Some(h) => texto(h@),
                            None => ValorParametro::Nulo,
                        },
                        entero(ts as int),
                    ],
                    false,
                ),
            ],
        ),
        Registro::Dependencia { de, a, pon, ts } => Ok(
            seq![
                (
                    if pon {
                        Sentencia::PonerDependencia
                    } else {
                        Sentencia::QuitarDependencia
                    },
                    seq![texto(de@), texto(a@)],
                    false,
                ),
            ],
        ),
        Registro::Borrado { id, ts } => Ok(
            seq![
                (Sentencia::BorrarActivo, seq![texto(id@)], false),
                (Sentencia::BorrarVersiones, seq![texto(id@)], false),
                (Sentencia::QuitarEtiquetas, seq![texto(id@)], false),
                (Sentencia::BorrarDependencias, seq![texto(id@)], false),
            ],
        ),
    }
}

/// El mensaje de un valor del diario que no cabe en el entero con signo de
/// SQLite.
pub open spec fn mensaje_no_cabe(que: Seq<char>, v: u64) -> Seq<char> {
    que + " = "@ + decimal(v as nat) + " no cabe en el entero con signo de SQLite; el diario esta adulterado"@
}

/// Escribe el mensaje de un valor que no cabe.
fn escribir_no_cabe(que: &str, v: u64) -> (r: String)
    ensures
        r@ == mensaje_no_cabe(que@, v),
{
    let mut out: Vec<char> = Vec::new();
    anadir(&mut out, que);
    anadir(&mut out, " = ");
    empujar_decimal(&mut out, v);
    anadir(&mut out, " no cabe en el entero con signo de SQLite; el diario esta adulterado");
    de_caracteres(&out)
}

/// Convierte un `u64` del diario a `i64` para SQLite, o lo rechaza: un valor
/// que no cabe solo puede venir de un diario adulterado, y saturarlo
/// guardaría algo que el registro no dice.
fn a_i64(v: u64, que: &str) -> (r: Result<i64, AssetError>)
    ensures
        v <= i64::MAX ==> r == Ok::<i64, AssetError>(v as i64),
        v > i64::MAX ==> (r matches Err(AssetError::RegistroIlegible(m)) && m@ == mensaje_no_cabe(que@, v)),
{
    if v <= 0x7fff_ffff_ffff_ffffu64 {
        Ok(v as i64)
    } else {
        Err(AssetError::RegistroIlegible(escribir_no_cabe(que, v)))
    }
}

fn t(s: &String) -> (r: Parametro)
    ensures
        r@ == texto(s@),
{
    Parametro::Texto(s.clone())
}

fn e(n: i64) -> (r: Parametro)
    ensures
        r@ == entero(n as int),
{
    Parametro::Entero(n)
}

fn orden(sentencia: Sentencia, params: Vec<Parametro>, solo_si_hubo_filas: bool) -> (r: Orden)
    ensures
        vista_orden(r) == (sentencia, vistas_p(params@), solo_si_hubo_filas),
{
    Orden { sentencia, params, solo_si_hubo_filas }
}

/// Añade el reemplazo de etiquetas.
fn empujar_etiquetas(out: &mut Vec<Orden>, id: &String, tags: &Vec<String>, cond: bool)
    ensures
        vista_plan(final(out)@) == vista_plan(old(out)@) + reemplazo_de_etiquetas(id@, tags@, cond),
{
    let ghost base = vista_plan(out@);
    let ghost objetivo = reemplazo_de_etiquetas(id@, tags@, cond);
    let ps = vec![t(id)];
    assert(vistas_p(ps@) =~= seq![texto(id@)]);
    out.push(orden(Sentencia::QuitarEtiquetas, ps, cond));
    assert(vista_plan(out@) =~= base + objetivo.take(1));
    let mut i: usize = 0;
    while i < tags.len()
        invariant
            i <= tags@.len(),
            objetivo == reemplazo_de_etiquetas(id@, tags@, cond),
            vista_plan(out@) == base + objetivo.take(i + 1),
        decreases tags@.len() - i,
    {
        let ghost antes = out@;
        let ps = vec![t(id), t(&tags[i])];
        assert(vistas_p(ps@) =~= seq![texto(id@), texto(tags@[i as int]@)]);
        out.push(orden(Sentencia::AnadirEtiqueta, ps, cond));
        proof {
            assert(vista_orden(out@.last()) =~= objetivo[i + 1]);
            assert(vista_plan(out@) =~= vista_plan(antes).push(objetivo[i + 1]));
            assert(objetivo.take(i + 2) =~= objetivo.take(i + 1).push(objetivo[i + 1]));
        }
        i = i + 1;
    }
    assert(objetivo.take(tags@.len() + 1 as int) =~= objetivo);
}

/// El plan de un registro: las sentencias que lo aplican al índice, en orden.
/// Un tamaño o una versión que no cabe en `i64` se rechaza antes de escribir
/// nada.
pub fn plan(r: &Registro) -> (p: Result<Vec<Orden>, AssetError>)
    ensures
        match plan_de(*r) {
            Ok(v) => p matches Ok(ps) && vista_plan(ps@) == v,
            Err((que, n)) => p matches Err(AssetError::RegistroIlegible(m)) && m@ == mensaje_no_cabe(que, n),
        },
{
    let mut out: Vec<Orden> = Vec::new();
    match r {
        Registro::Importado { id, version, hash, tam, origen, meta, ts } => {
            let tam_i = match a_i64(*tam, "tam") {
                Ok(v) => v,
                Err(e) => {
                    return Err(e);
                },
            };
            let version_i = match a_i64(*version, "version") {
                Ok(v) => v,
                Err(e) => {
                    return Err(e);
                },
            };
            let codigo = meta.kind.code();
            let ps1 = vec![
                t(id),
                t(&meta.name),
                Parametro::Texto(normalizar(meta.name.as_str())),
                e(codigo as i64),
                t(&meta.notes),
                Parametro::Texto(normalizar(meta.notes.as_str())),
                e(tam_i),
                e(*ts),
                t(origen),
                e(version_i),
                t(hash),
            ];
            assert(vistas_p(ps1@) =~= seq![
                texto(id@),
                texto(meta.name@),
                texto(normalizado(meta.name@)),
                entero(codigo_de(meta.kind) as int),
                texto(meta.notes@),
                texto(normalizado(meta.notes@)),
                entero(*tam as int),
                entero(*ts as int),
                texto(origen@),
                entero(*version as int),
                texto(hash@),
            ]);
            out.push(orden(Sentencia::AltaActivo, ps1, false));
            let ps2 = vec![t(id), e(version_i), t(hash), e(tam_i), e(*ts)];
            assert(vistas_p(ps2@) =~= seq![
                texto(id@),
                entero(*version as int),
                texto(hash@),
                entero(*tam as int),
                entero(*ts as int),
            ]);
            out.push(orden(Sentencia::AltaVersion, ps2, false));
            let ghost dos = vista_plan(out@);
            empujar_etiquetas(&mut out, id, &meta.tags, false);
            assert(vista_plan(out@) =~= dos + reemplazo_de_etiquetas(id@, meta.tags@, false));
        },
        Registro::Vigente { id, version, ts } => {
            let version_i = match a_i64(*version, "version") {
                Ok(v) => v,
                Err(e) => {
                    return Err(e);
                },
            };
            let ps = vec![t(id), e(version_i), e(*ts)];
            assert(vistas_p(ps@) =~= seq![texto(id@), entero(*version as int), entero(*ts as int)]);
            out.push(orden(Sentencia::FijarVigente, ps, false));
        },
        Registro::Meta { id, meta, ts } => {
            let codigo = meta.kind.code();
            let ps = vec![
                t(id),
                t(&meta.name),
                Parametro::Texto(normalizar(meta.name.as_str())),
                e(codigo as i64),
                t(&meta.notes),
                Parametro::Texto(normalizar(meta.notes.as_str())),
                e(*ts),
            ];
            assert(vistas_p(ps@) =~= seq![
                texto(id@),
                texto(meta.name@),
                texto(normalizado(meta.name@)),
                entero(codigo_de(meta.kind) as int),
                texto(meta.notes@),
                texto(normalizado(meta.notes@)),
                entero(*ts as int),
            ]);
            out.push(orden(Sentencia::CambiarMeta, ps, false));
            let ghost uno = vista_plan(out@);
            empujar_etiquetas(&mut out, id, &meta.tags, true);
            assert(vista_plan(out@) =~= uno + reemplazo_de_etiquetas(id@, meta.tags@, true));
        },
        Registro::Etiqueta { id, etiqueta, pon, ts } => {
            let s = if *pon {
                Sentencia::PonerEtiqueta
            } else {
                Sentencia::QuitarEtiqueta
            };
            let ps = vec![t(id), t(etiqueta)];
            assert(vistas_p(ps@) =~= seq![texto(id@), texto(etiqueta@)]);
            out.push(orden(s, ps, false));
            let ps2 = vec![t(id), e(*ts)];
            assert(vistas_p(ps2@) =~= seq![texto(id@), entero(*ts as int)]);
            out.push(orden(Sentencia::Tocar, ps2, false));
        },
        Registro::Miniatura { id, hash, ts } => {
            let h = match hash {
                Some(h) => t(h),
                None => Parametro::Nulo,
            };
            let ps = vec![t(id), h, e(*ts)];
            assert(vistas_p(ps@) =~= seq![
                texto(id@),
                match hash {
                    Some(h) => texto(h@),
                    None => ValorParametro::Nulo,
                },
                entero(*ts as int),
            ]);
            out.push(orden(Sentencia::PonerMiniatura, ps, false));
        },
        Registro::Dependencia { de, a, pon, .. } => {
            let s = if *pon {
                Sentencia::PonerDependencia
            } else {
                Sentencia::QuitarDependencia
            };
            let ps = vec![t(de), t(a)];
            assert(vistas_p(ps@) =~= seq![texto(de@), texto(a@)]);
            out.push(orden(s, ps, false));
        },
        Registro::Borrado { id, .. } => {
            let p1 = vec![t(id)];
            let p2 = vec![t(id)];
            let p3 = vec![t(id)];
            let p4 = vec![t(id)];
            assert(vistas_p(p1@) =~= seq![texto(id@)]);
            assert(vistas_p(p2@) =~= seq![texto(id@)]);
            assert(vistas_p(p3@) =~= seq![texto(id@)]);
            assert(vistas_p(p4@) =~= seq![texto(id@)]);
            out.push(orden(Sentencia::BorrarActivo, p1, false));
            out.push(orden(Sentencia::BorrarVersiones, p2, false));
            out.push(orden(Sentencia::QuitarEtiquetas, p3, false));
            out.push(orden(Sentencia::BorrarDependencias, p4, false));
        },
    }
    proof {
        if let Ok(v) = plan_de(*r) {
            assert(vista_plan(out@) =~= v);
        }
    }
    Ok(out)
}

} // verus!

//! O motor de backup completo: monta o arquivo `.vaultbackup` de um cofre
//! inteiro e valida e extrai um arquivo desses para restauração. Toda entrada
//! e saída de disco fica com o chamador: aqui entram e saem valores simples
//! (os bytes do banco, os anexos com seus caminhos internos, os bytes do
//! arquivo), e todos os passos de montagem e validação são verificados.

use vstd::prelude::*;

use crate::arquivo_zip::analise_nomes;
use crate::arquivo_zip::analise_zip;
use crate::arquivo_zip::abrir_arquivo;
use crate::arquivo_zip::entradas_cabem;
use crate::arquivo_zip::entradas_escritas;
use crate::arquivo_zip::lema_escrita_cabe;
use crate::arquivo_zip::nomes_de_entradas;
use crate::arquivo_zip::escrever_entrada;
use crate::arquivo_zip::finalizar_escritor;
use crate::arquivo_zip::lema_mapa_de_entradas;
use crate::arquivo_zip::ler_entrada;
use crate::arquivo_zip::listar_nomes;
use crate::arquivo_zip::mapa_de_entradas;
use crate::arquivo_zip::nomes_unicos;
use crate::arquivo_zip::nomes_zip;
use crate::arquivo_zip::conteudo_zip;
use crate::arquivo_zip::novo_escritor;
use crate::cripto::calcular_hash_bytes;
use crate::cripto::hash_sha256_de;
use crate::erro::ErroBackup;
use crate::manifesto::analisa_manifesto;
use crate::manifesto::codifica_manifesto;
use crate::manifesto::codificar_manifesto;
use crate::manifesto::decodificar_manifesto;
use crate::modelo::mapa_de_pares;
use crate::modelo::vista_pares;
use crate::modelo::ManifestoBackup;
use crate::modelo::ManifestoVista;
use crate::texto::concatenar;
use crate::texto::remover_prefixo;
use crate::texto::textos_iguais;

verus! {

/// A versão mais recente do esquema do banco de dados que este sistema
/// conhece; gravada nos manifestos e comparada na restauração.
pub const VERSAO_SCHEMA_ATUAL: i32 = 2;

/// Devolve a versão mais recente do esquema do banco de dados.
pub fn versao_mais_recente() -> (v: i32)
    ensures
        v == VERSAO_SCHEMA_ATUAL,
{
    VERSAO_SCHEMA_ATUAL
}

// =============================================================================
// Modelo de um arquivo de backup completo
// =============================================================================

/// A vista de uma lista de anexos: caminho interno e bytes de cada um.
pub open spec fn vista_anexos(s: Seq<(String, Vec<u8>)>) -> Seq<(Seq<char>, Seq<u8>)> {
    s.map_values(|p: (String, Vec<u8>)| (p.0@, p.1@))
}

/// Caminhos internos sem repetição.
pub open spec fn caminhos_unicos(anexos: Seq<(Seq<char>, Seq<u8>)>) -> bool {
    forall|i: int, j: int|
        0 <= i < j < anexos.len() ==> (#[trigger] anexos[i]).0 != (#[trigger] anexos[j]).0
}

/// Um caminho interno que pode virar entrada de anexo num arquivo: não vazio
/// e sem barra final (uma entrada com barra final é um diretório, não um
/// arquivo).
pub open spec fn caminho_de_anexo_valido(p: Seq<char>) -> bool {
    p.len() > 0 && p.last() != '/'
}

/// O nome da entrada de um anexo dentro do arquivo.
pub open spec fn nome_entrada_anexo(p: Seq<char>) -> Seq<char> {
    "anexos/"@ + p
}

/// O manifesto que um backup completo grava: as versões e contagens dadas,
/// o resumo do banco e o resumo de cada anexo, na ordem dos anexos.
pub open spec fn manifesto_do_backup(
    banco: Seq<u8>,
    anexos: Seq<(Seq<char>, Seq<u8>)>,
    versao_app: Seq<char>,
    versao_schema: int,
    data: Seq<char>,
    total_itens: int,
    total_anexos: int,
) -> ManifestoVista {
    ManifestoVista {
        versao_app,
        versao_schema,
        data,
        total_itens,
        total_anexos,
        hash_banco: hash_sha256_de(banco),
        hashes_anexos: anexos.map_values(
            |p: (Seq<char>, Seq<u8>)| (p.0, hash_sha256_de(p.1)),
        ),
    }
}

/// As entradas de anexo de um arquivo, na ordem dada.
pub open spec fn entradas_de_anexos(anexos: Seq<(Seq<char>, Seq<u8>)>) -> Seq<
    (Seq<char>, Seq<u8>),
> {
    anexos.map_values(|p: (Seq<char>, Seq<u8>)| (nome_entrada_anexo(p.0), p.1))
}

/// Todas as entradas de um backup completo, na ordem de escrita: o banco,
/// os anexos e, por último, o manifesto.
pub open spec fn entradas_do_backup(
    banco: Seq<u8>,
    anexos: Seq<(Seq<char>, Seq<u8>)>,
    m: ManifestoVista,
) -> Seq<(Seq<char>, Seq<u8>)> {
    seq![("banco.sqlite"@, banco)] + entradas_de_anexos(anexos) + seq![
        ("manifesto.json"@, codifica_manifesto(m)),
    ]
}

/// O conteúdo de um arquivo de backup completo: o mapa de nome de entrada
/// para bytes que um backup bem-sucedido descreve.
pub open spec fn modelo_backup(
    banco: Seq<u8>,
    anexos: Seq<(Seq<char>, Seq<u8>)>,
    m: ManifestoVista,
) -> Map<Seq<char>, Seq<u8>> {
    mapa_de_entradas(entradas_do_backup(banco, anexos, m))
}

/// Os nomes fixos das entradas são distintos entre si e dos nomes de anexo.
pub proof fn lema_nomes_de_entrada_distintos(p: Seq<char>, q: Seq<char>)
    ensures
        "banco.sqlite"@ != "manifesto.json"@,
        nome_entrada_anexo(p) != "banco.sqlite"@,
        nome_entrada_anexo(p) != "manifesto.json"@,
        p != q ==> nome_entrada_anexo(p) != nome_entrada_anexo(q),
        nome_entrada_anexo(p) == nome_entrada_anexo(q) ==> p == q,
{
    reveal_strlit("banco.sqlite");
    reveal_strlit("manifesto.json");
    reveal_strlit("anexos/");
    assert(nome_entrada_anexo(p)[0] == 'a');
    assert("banco.sqlite"@[0] == 'b');
    assert("manifesto.json"@[0] == 'm');
    if nome_entrada_anexo(p) == nome_entrada_anexo(q) {
        assert(nome_entrada_anexo(p).len() == 7 + p.len());
        assert(nome_entrada_anexo(q).len() == 7 + q.len());
        assert(p.len() == q.len());
        assert forall|i: int| 0 <= i < p.len() implies p[i] == q[i] by {
            assert(nome_entrada_anexo(p)[7 + i] == p[i]);
            assert(nome_entrada_anexo(q)[7 + i] == q[i]);
        }
        assert(p =~= q);
    }
}

/// Os nomes das entradas de um backup não se repetem quando os caminhos dos
/// anexos não se repetem.
#[verifier::rlimit(100)]
#[verifier::spinoff_prover]
pub proof fn lema_entradas_do_backup_unicas(
    banco: Seq<u8>,
    anexos: Seq<(Seq<char>, Seq<u8>)>,
    m: ManifestoVista,
)
    requires
        caminhos_unicos(anexos),
    ensures
        nomes_unicos(entradas_do_backup(banco, anexos, m)),
{
    let es = entradas_do_backup(banco, anexos, m);
    let n = anexos.len() as int;
    assert(es.len() == n + 2);
    assert(es[0].0 == "banco.sqlite"@);
    assert(es[n + 1].0 == "manifesto.json"@);
    assert(forall|i: int|
        0 <= i < n ==> (#[trigger] es[i + 1]).0 == nome_entrada_anexo(anexos[i].0));
    assert forall|i: int, j: int| 0 <= i < j < es.len() implies (#[trigger] es[i]).0 != (
    #[trigger] es[j]).0 by {
        if i == 0 {
            if j == n + 1 {
                lema_nomes_de_entrada_distintos(Seq::empty(), Seq::empty());
            } else {
                assert(es[j].0 == nome_entrada_anexo(anexos[j - 1].0));
                lema_nomes_de_entrada_distintos(anexos[j - 1].0, Seq::empty());
            }
        } else if j == n + 1 {
            assert(es[i].0 == nome_entrada_anexo(anexos[i - 1].0));
            lema_nomes_de_entrada_distintos(anexos[i - 1].0, Seq::empty());
        } else {
            assert(es[i].0 == nome_entrada_anexo(anexos[i - 1].0));
            assert(es[j].0 == nome_entrada_anexo(anexos[j - 1].0));
            assert(anexos[i - 1].0 != anexos[j - 1].0);
            lema_nomes_de_entrada_distintos(anexos[i - 1].0, anexos[j - 1].0);
        }
    }
}

// =============================================================================
// Criação de backup
// =============================================================================

/// Confere se algum caminho interno se repete na lista de anexos.
pub(crate) fn caminhos_repetidos(anexos: &Vec<(String, Vec<u8>)>) -> (r: bool)
    ensures
        r == !caminhos_unicos(vista_anexos(anexos@)),
{
    let ghost va = vista_anexos(anexos@);
    let mut i: usize = 0;
    while i < anexos.len()
        invariant
            i <= anexos@.len(),
            va == vista_anexos(anexos@),
            forall|a: int, b: int| 0 <= a < b < anexos@.len() && a < i ==> (#[trigger] va[a]).0
                != (#[trigger] va[b]).0,
        decreases anexos@.len() - i,
    {
        let mut j: usize = i + 1;
        while j < anexos.len()
            invariant
                i < j <= anexos@.len() || (i as int) + 1 > anexos@.len(),
                i < anexos@.len(),
                va == vista_anexos(anexos@),
                forall|b: int| i < b < j ==> (#[trigger] va[b]).0 != va[i as int].0,
            decreases anexos@.len() - j,
        {
            if textos_iguais(anexos[i].0.as_str(), anexos[j].0.as_str()) {
                proof {
                    assert(va[i as int].0 == va[j as int].0);
                }
                return true;
            }
            j += 1;
        }
        i += 1;
    }
    false
}

/// Monta os bytes de um arquivo `.vaultbackup` de backup completo.
///
/// Recebe os bytes do banco de dados (uma cópia pontual consistente), os
/// anexos presentes no disco (cada caminho interno com seus bytes, sem
/// repetição de caminho), a versão do aplicativo, a versão do esquema, o
/// instante da criação e as contagens informativas de itens e anexos do
/// cofre. Grava o banco, cada anexo sob `anexos/` e, por último, o manifesto
/// com o resumo SHA-256 do banco e de cada anexo.
///
/// Em caso de sucesso, os bytes devolvidos formam um arquivo cujo conteúdo é
/// exatamente o modelo `modelo_backup` e cuja lista de nomes é a das
/// entradas, na ordem de escrita. Toda falha é de escrita no contêiner
/// (`Es`); um caminho de anexo repetido também é recusado assim, como o
/// contêiner o recusaria. O sucesso é devido: com caminhos sem repetição e
/// entradas que cabem nos campos do formato, o resultado é `Ok`.
#[verifier::rlimit(100)]
#[verifier::spinoff_prover]
pub fn criar_backup(
    banco: &Vec<u8>,
    anexos: &Vec<(String, Vec<u8>)>,
    versao_app: &str,
    versao_schema: i32,
    data: &str,
    total_itens: i64,
    total_anexos: i64,
) -> (r: Result<Vec<u8>, ErroBackup>)
    requires
        0 <= versao_schema,
        0 <= total_itens,
        0 <= total_anexos,
    ensures
        r is Ok ==> caminhos_unicos(vista_anexos(anexos@)) && analise_zip(r->Ok_0@) == Some(
            modelo_backup(
                banco@,
                vista_anexos(anexos@),
                manifesto_do_backup(
                    banco@,
                    vista_anexos(anexos@),
                    versao_app@,
                    versao_schema as int,
                    data@,
                    total_itens as int,
                    total_anexos as int,
                ),
            ),
        ),
        r is Err ==> r->Err_0 is Es,
        ({
            let es = entradas_do_backup(
                banco@,
                vista_anexos(anexos@),
                manifesto_do_backup(
                    banco@,
                    vista_anexos(anexos@),
                    versao_app@,
                    versao_schema as int,
                    data@,
                    total_itens as int,
                    total_anexos as int,
                ),
            );
            &&& (r is Ok ==> analise_nomes(r->Ok_0@) == nomes_de_entradas(es))
            &&& ((caminhos_unicos(vista_anexos(anexos@)) && entradas_cabem(es)) ==> r is Ok)
        }),
{
    let ghost va = vista_anexos(anexos@);
    let ghost m = manifesto_do_backup(
        banco@,
        va,
        versao_app@,
        versao_schema as int,
        data@,
        total_itens as int,
        total_anexos as int,
    );
    let ghost es = entradas_do_backup(banco@, va, m);
    if caminhos_repetidos(anexos) {
        return Err(ErroBackup::Es);
    }
    proof {
        lema_entradas_do_backup_unicas(banco@, va, m);
        assert(es[0] == ("banco.sqlite"@, banco@));
    }
    let mut escritor = novo_escritor();
    let ghost gravadas = entradas_escritas(escritor);
    if escrever_entrada(&mut escritor, "banco.sqlite", banco.as_slice()).is_err() {
        proof {
            if entradas_cabem(es) {
                lema_escrita_cabe(es, 0);
                assert(gravadas =~= es.take(0));
                assert(gravadas.push(("banco.sqlite"@, banco@)) =~= es.take(1));
                assert(false);
            }
        }
        return Err(ErroBackup::Es);
    }
    proof {
        assert(entradas_escritas(escritor) =~= seq![("banco.sqlite"@, banco@)]);
    }
    let mut hashes: Vec<(String, String)> = Vec::new();
    let mut i: usize = 0;
    while i < anexos.len()
        invariant
            i <= anexos@.len(),
            va == vista_anexos(anexos@),
            m == manifesto_do_backup(
                banco@,
                va,
                versao_app@,
                versao_schema as int,
                data@,
                total_itens as int,
                total_anexos as int,
            ),
            es == entradas_do_backup(banco@, va, m),
            caminhos_unicos(va),
            nomes_unicos(es),
            entradas_escritas(escritor) == seq![("banco.sqlite"@, banco@)] + entradas_de_anexos(
                va.take(i as int),
            ),
            hashes@.len() == i,
            forall|j: int|
                0 <= j < i ==> (#[trigger] hashes@[j]).0@ == va[j].0 && hashes@[j].1@
                    == hash_sha256_de(va[j].1),
        decreases anexos@.len() - i,
    {
        let nome = concatenar("anexos/", anexos[i].0.as_str());
        let resumo = calcular_hash_bytes(anexos[i].1.as_slice());
        let ghost gravadas = entradas_escritas(escritor);
        proof {
            assert(es.len() == va.len() + 2);
            assert(es[i + 1] == entradas_de_anexos(va)[i as int]);
            assert(entradas_de_anexos(va)[i as int] == (
                nome_entrada_anexo(va[i as int].0),
                va[i as int].1,
            ));
            assert(gravadas =~= es.take(i + 1)) by {
                assert forall|j: int| 0 <= j < i + 1 implies #[trigger] gravadas[j] == es.take(
                    i + 1,
                )[j] by {
                    if j > 0 {
                        assert(gravadas[j] == entradas_de_anexos(va.take(i as int))[j - 1]);
                        assert(entradas_de_anexos(va.take(i as int))[j - 1] == (
                            nome_entrada_anexo(va.take(i as int)[j - 1].0),
                            va.take(i as int)[j - 1].1,
                        ));
                        assert(es[j] == entradas_de_anexos(va)[j - 1]);
                        assert(entradas_de_anexos(va)[j - 1] == (
                            nome_entrada_anexo(va[j - 1].0),
                            va[j - 1].1,
                        ));
                    }
                }
            }
        }
        if escrever_entrada(&mut escritor, nome.as_str(), anexos[i].1.as_slice()).is_err() {
            proof {
                if entradas_cabem(es) {
                    lema_escrita_cabe(es, i + 1);
                    assert(nome@ == es[i + 1].0);
                    assert(anexos@[i as int].1@ == es[i + 1].1);
                    assert(gravadas.push((nome@, anexos@[i as int].1@)) =~= es.take(i + 2)) by {
                        assert forall|j: int|
                            0 <= j < i + 2 implies #[trigger] gravadas.push(
                            (nome@, anexos@[i as int].1@),
                        )[j] == es.take(i + 2)[j] by {
                            if j < i + 1 {
                                assert(gravadas[j] == es.take(i + 1)[j]);
                            }
                        }
                    }
                    assert(false);
                }
            }
            return Err(ErroBackup::Es);
        }
        let caminho = anexos[i].0.clone();
        hashes.push((caminho, resumo));
        proof {
            assert(entradas_de_anexos(va.take(i + 1)) =~= entradas_de_anexos(va.take(i as int))
                + seq![(nome_entrada_anexo(va[i as int].0), va[i as int].1)]);
            assert(entradas_escritas(escritor) =~= seq![("banco.sqlite"@, banco@)]
                + entradas_de_anexos(va.take(i + 1)));
        }
        i += 1;
    }
    let manifesto = ManifestoBackup {
        versao_app: versao_app.to_owned(),
        versao_schema,
        data: data.to_owned(),
        total_itens,
        total_anexos,
        hash_banco: calcular_hash_bytes(banco.as_slice()),
        hashes_anexos: hashes,
    };
    proof {
        assert(manifesto@.hashes_anexos =~= m.hashes_anexos);
        assert(manifesto@ == m);
    }
    let bytes_manifesto = codificar_manifesto(&manifesto);
    let ghost gravadas = entradas_escritas(escritor);
    let ghost t = va.len() as int + 1;
    proof {
        assert(va.take(va.len() as int) =~= va);
        assert(es.len() == va.len() + 2);
        assert(es[t] == ("manifesto.json"@, codifica_manifesto(m)));
        assert(gravadas =~= es.take(t)) by {
            assert forall|j: int| 0 <= j < t implies #[trigger] gravadas[j] == es.take(t)[j] by {
                if j > 0 {
                    assert(gravadas[j] == entradas_de_anexos(va)[j - 1]);
                    assert(es[j] == entradas_de_anexos(va)[j - 1]);
                }
            }
        }
    }
    if escrever_entrada(&mut escritor, "manifesto.json", bytes_manifesto.as_slice()).is_err() {
        proof {
            if entradas_cabem(es) {
                lema_escrita_cabe(es, t);
                assert(gravadas.push(("manifesto.json"@, bytes_manifesto@)) =~= es.take(t + 1));
                assert(false);
            }
        }
        return Err(ErroBackup::Es);
    }
    proof {
        assert(entradas_escritas(escritor) =~= es);
    }
    match finalizar_escritor(escritor) {
        Ok(bytes) => Ok(bytes),
        Err(_) => {
            proof {
                if entradas_cabem(es) {
                    assert(false);
                }
            }
            Err(ErroBackup::Es)
        },
    }
}

/// O nome do arquivo de um backup completo, derivado do instante da criação.
pub fn nome_arquivo_backup(agora: &str) -> (r: String)
    ensures
        r@ == "vaultcraft_backup_"@ + agora@ + ".vaultbackup"@,
{
    let mut r = concatenar("vaultcraft_backup_", agora);
    r.append(".vaultbackup");
    r
}

// =============================================================================
// Restauração
// =============================================================================

/// Um anexo extraído de um arquivo na restauração: seu caminho interno, seus
/// bytes e se o resumo conferiu com o registrado no manifesto. Um resumo que
/// não confere não aborta a restauração: o anexo é mantido e o desvio fica
/// registrado aqui, para o chamador relatar.
pub struct AnexoRestaurado {
    pub caminho_interno: String,
    pub dados: Vec<u8>,
    pub integridade_ok: bool,
}

pub ghost struct AnexoRestauradoVista {
    pub caminho_interno: Seq<char>,
    pub dados: Seq<u8>,
    pub integridade_ok: bool,
}

impl View for AnexoRestaurado {
    type V = AnexoRestauradoVista;

    open spec fn view(&self) -> AnexoRestauradoVista {
        AnexoRestauradoVista {
            caminho_interno: self.caminho_interno@,
            dados: self.dados@,
            integridade_ok: self.integridade_ok,
        }
    }
}

/// O resultado validado de uma restauração: o manifesto lido, os bytes do
/// banco (com o resumo já conferido) e os anexos extraídos. Nada do estado
/// vivo foi tocado: aplicar este plano (gravar o banco, esvaziar e repovoar o
/// diretório de anexos) fica com o chamador, depois do instantâneo de
/// segurança.
pub struct PlanoRestauracao {
    pub manifesto: ManifestoBackup,
    pub banco: Vec<u8>,
    pub anexos: Vec<AnexoRestaurado>,
}

/// A vista de uma lista de anexos restaurados.
pub open spec fn vista_restaurados(s: Seq<AnexoRestaurado>) -> Seq<AnexoRestauradoVista> {
    s.map_values(|a: AnexoRestaurado| a@)
}

/// A validação que precede qualquer mutação numa restauração, sobre o
/// conteúdo de um arquivo aberto: exige o manifesto presente e legível,
/// recusa um esquema mais novo que o suportado, exige a entrada do banco e
/// confere seu resumo. Devolve o manifesto e os bytes validados do banco, ou
/// o erro exato.
pub open spec fn validacao_backup(
    conteudo: Map<Seq<char>, Seq<u8>>,
    versao_suportada: int,
) -> Result<(ManifestoVista, Seq<u8>), ErroBackup> {
    if !conteudo.contains_key("manifesto.json"@) {
        Err(ErroBackup::Formato)
    } else {
        match analisa_manifesto(conteudo["manifesto.json"@]) {
            None => Err(ErroBackup::Formato),
            Some(m) => {
                if m.versao_schema > versao_suportada {
                    Err(
                        ErroBackup::VersaoIncompativel {
                            encontrada: m.versao_schema as i32,
                            suportada: versao_suportada as i32,
                        },
                    )
                } else if !conteudo.contains_key("banco.sqlite"@) {
                    Err(ErroBackup::Formato)
                } else if hash_sha256_de(conteudo["banco.sqlite"@]) != m.hash_banco {
                    Err(ErroBackup::Integridade)
                } else {
                    Ok((m, conteudo["banco.sqlite"@]))
                }
            },
        }
    }
}

/// O resumo extraído de um anexo confere com o manifesto: ou o manifesto não
/// registra aquele caminho, ou registra exatamente o resumo dos bytes
/// extraídos.
pub open spec fn integridade_anexo(m: ManifestoVista, p: Seq<char>, dados: Seq<u8>) -> bool {
    mapa_de_pares(m.hashes_anexos).contains_key(p) ==> mapa_de_pares(m.hashes_anexos)[p]
        == hash_sha256_de(dados)
}

/// Os anexos de um plano de restauração estão corretos para um conteúdo e
/// uma lista de nomes de arquivo: caminhos válidos e sem repetição, cada um
/// com os bytes exatos da sua entrada e com a marca de integridade certa, e
/// nenhum anexo listado e extraível ficou de fora. A completude é sobre os
/// nomes listados: num arquivo de origem alheia, o nome listado de uma
/// entrada gravada sem a marca de UTF-8 pode diferir da chave de extração, e
/// só as entradas cujo nome listado leva a bytes extraíveis são devidas.
pub open spec fn anexos_restaurados_corretos(
    conteudo: Map<Seq<char>, Seq<u8>>,
    nomes: Seq<Seq<char>>,
    m: ManifestoVista,
    anexos: Seq<AnexoRestauradoVista>,
) -> bool {
    &&& (forall|i: int, j: int|
        0 <= i < j < anexos.len() ==> (#[trigger] anexos[i]).caminho_interno != (
        #[trigger] anexos[j]).caminho_interno)
    &&& (forall|i: int|
        0 <= i < anexos.len() ==> {
            let a = #[trigger] anexos[i];
            &&& caminho_de_anexo_valido(a.caminho_interno)
            &&& conteudo.contains_key(nome_entrada_anexo(a.caminho_interno))
            &&& a.dados == conteudo[nome_entrada_anexo(a.caminho_interno)]
            &&& a.integridade_ok == integridade_anexo(m, a.caminho_interno, a.dados)
        })
    &&& (forall|p: Seq<char>|
        caminho_de_anexo_valido(p) && nomes.contains(nome_entrada_anexo(p))
            && #[trigger] conteudo.contains_key(nome_entrada_anexo(p)) ==> exists|i: int|
            0 <= i < anexos.len() && (#[trigger] anexos[i]).caminho_interno == p)
}

/// Algum anexo já extraído usa este caminho interno.
fn caminho_ja_extraido(extraidos: &Vec<AnexoRestaurado>, caminho: &str) -> (r: bool)
    ensures
        r == exists|i: int|
            0 <= i < extraidos@.len() && (#[trigger] extraidos@[i])@.caminho_interno == caminho@,
{
    let mut i: usize = 0;
    while i < extraidos.len()
        invariant
            i <= extraidos@.len(),
            forall|j: int|
                0 <= j < i ==> (#[trigger] extraidos@[j])@.caminho_interno != caminho@,
        decreases extraidos@.len() - i,
    {
        if textos_iguais(extraidos[i].caminho_interno.as_str(), caminho) {
            return true;
        }
        i += 1;
    }
    false
}

/// O nome da entrada de um anexo determina o caminho: começa com `anexos/` e
/// o restante é o caminho.
proof fn lema_prefixo_anexo(nome: Seq<char>, p: Seq<char>)
    requires
        nome == nome_entrada_anexo(p),
    ensures
        nome.len() == 7 + p.len(),
        nome.subrange(0, 7) == "anexos/"@,
        nome.subrange(7, nome.len() as int) == p,
{
    reveal_strlit("anexos/");
    assert(nome.subrange(0, 7) =~= "anexos/"@);
    assert(nome.subrange(7, nome.len() as int) =~= p);
}

/// Procura o valor da última ocorrência de uma chave numa lista de pares,
/// como o mapa descrito pela lista o define.
fn procurar_valor(pares: &Vec<(String, String)>, chave: &str) -> (r: Option<String>)
    ensures
        r is Some <==> mapa_de_pares(vista_pares(pares@)).contains_key(chave@),
        r is Some ==> r->Some_0@ == mapa_de_pares(vista_pares(pares@))[chave@],
{
    let ghost vp = vista_pares(pares@);
    let mut achado: Option<String> = None;
    let mut i: usize = 0;
    while i < pares.len()
        invariant
            i <= pares@.len(),
            vp == vista_pares(pares@),
            achado is Some <==> mapa_de_pares(vp.take(i as int)).contains_key(chave@),
            achado is Some ==> achado->Some_0@ == mapa_de_pares(vp.take(i as int))[chave@],
        decreases pares@.len() - i,
    {
        proof {
            assert(vp.take(i + 1).drop_last() =~= vp.take(i as int));
            assert(vp.take(i + 1).last() == vp[i as int]);
            assert(vp[i as int] == (pares@[i as int].0@, pares@[i as int].1@));
        }
        if textos_iguais(pares[i].0.as_str(), chave) {
            achado = Some(pares[i].1.clone());
        }
        i += 1;
    }
    proof {
        assert(vp.take(pares@.len() as int) =~= vp);
    }
    achado
}

/// Valida e extrai um arquivo `.vaultbackup` de backup completo, sem tocar
/// nada do estado vivo do cofre.
///
/// A ordem é a da restauração segura: abre o contêiner (`Formato` se os bytes
/// não formam um), lê e decodifica o manifesto (`Formato` se ausente ou
/// ilegível), recusa um esquema mais novo que `versao_suportada`
/// (`VersaoIncompativel`, com as duas versões), extrai o banco (`Formato` se
/// ausente) e confere seu resumo (`Integridade` se não bate). Só então extrai
/// os anexos: cada entrada listada e legível sob `anexos/`, com a marca de
/// integridade de cada um; um anexo ilegível é pulado, um caminho listado
/// duas vezes entra uma só vez, e um resumo que não confere é mantido e
/// marcado — nada disso aborta a restauração. Devolve o plano completo; o
/// chamador o aplica ao disco depois do instantâneo de segurança.
#[verifier::rlimit(100)]
#[verifier::spinoff_prover]
pub fn restaurar_backup(arquivo: &Vec<u8>, versao_suportada: i32) -> (r: Result<
    PlanoRestauracao,
    ErroBackup,
>)
    ensures
        (r is Ok) == (analise_zip(arquivo@) is Some && validacao_backup(
            analise_zip(arquivo@)->Some_0,
            versao_suportada as int,
        ) is Ok),
        r is Err ==> (analise_zip(arquivo@) is None && r->Err_0 == ErroBackup::Formato) || (
        analise_zip(arquivo@) is Some && validacao_backup(
            analise_zip(arquivo@)->Some_0,
            versao_suportada as int,
        ) == Err::<(ManifestoVista, Seq<u8>), ErroBackup>(r->Err_0)),
        r is Ok ==> {
            let conteudo = analise_zip(arquivo@)->Some_0;
            let plano = r->Ok_0;
            &&& validacao_backup(conteudo, versao_suportada as int) == Ok::<
                (ManifestoVista, Seq<u8>),
                ErroBackup,
            >((plano.manifesto@, plano.banco@))
            &&& anexos_restaurados_corretos(
                conteudo,
                analise_nomes(arquivo@),
                plano.manifesto@,
                vista_restaurados(plano.anexos@),
            )
        },
{
    let mut arq = match abrir_arquivo(arquivo) {
        Ok(a) => a,
        Err(_) => {
            return Err(ErroBackup::Formato);
        },
    };
    let ghost conteudo = conteudo_zip(arq);
    let ghost vnomes = nomes_zip(arq);
    let bytes_manifesto = match ler_entrada(&mut arq, "manifesto.json") {
        Ok(b) => b,
        Err(_) => {
            return Err(ErroBackup::Formato);
        },
    };
    let manifesto = match decodificar_manifesto(&bytes_manifesto) {
        Ok(m) => m,
        Err(_) => {
            return Err(ErroBackup::Formato);
        },
    };
    let ghost m = manifesto@;
    if manifesto.versao_schema > versao_suportada {
        return Err(
            ErroBackup::VersaoIncompativel {
                encontrada: manifesto.versao_schema,
                suportada: versao_suportada,
            },
        );
    }
    let banco = match ler_entrada(&mut arq, "banco.sqlite") {
        Ok(b) => b,
        Err(_) => {
            return Err(ErroBackup::Formato);
        },
    };
    let resumo_banco = calcular_hash_bytes(banco.as_slice());
    if !textos_iguais(resumo_banco.as_str(), manifesto.hash_banco.as_str()) {
        return Err(ErroBackup::Integridade);
    }
    let nomes = listar_nomes(&arq);
    let mut extraidos: Vec<AnexoRestaurado> = Vec::new();
    let mut k: usize = 0;
    while k < nomes.len()
        invariant
            k <= nomes@.len(),
            conteudo_zip(arq) == conteudo,
            nomes_zip(arq) == vnomes,
            vnomes == nomes@.map_values(|s: String| s@),
            m == manifesto@,
            forall|i: int|
                0 <= i < extraidos@.len() ==> {
                    let a = (#[trigger] extraidos@[i])@;
                    &&& caminho_de_anexo_valido(a.caminho_interno)
                    &&& conteudo.contains_key(nome_entrada_anexo(a.caminho_interno))
                    &&& a.dados == conteudo[nome_entrada_anexo(a.caminho_interno)]
                    &&& a.integridade_ok == integridade_anexo(m, a.caminho_interno, a.dados)
                },
            forall|i: int, j: int|
                0 <= i < j < extraidos@.len() ==> (#[trigger] extraidos@[i])@.caminho_interno != (
                #[trigger] extraidos@[j])@.caminho_interno,
            forall|p: Seq<char>|
                caminho_de_anexo_valido(p) && #[trigger] conteudo.contains_key(
                    nome_entrada_anexo(p),
                ) && (exists|j: int| 0 <= j < k && vnomes[j] == nome_entrada_anexo(p)) ==> exists|
                    i: int,
                |
                    0 <= i < extraidos@.len() && (#[trigger] extraidos@[i])@.caminho_interno == p,
        decreases nomes@.len() - k,
    {
        let ghost nome_atual = vnomes[k as int];
        let ghost antes = extraidos@;
        let ghost mut empurrado: bool = false;
        let ghost mut tem_caminho: bool = false;
        let ghost mut pc: Seq<char> = Seq::empty();
        let resto = remover_prefixo(nomes[k].as_str(), "anexos/");
        match resto {
            None => {
                proof {
                    assert forall|p: Seq<char>| nome_atual == nome_entrada_anexo(p) implies false
                        by {
                        lema_prefixo_anexo(nome_atual, p);
                    }
                }
            },
            Some(caminho) => {
                let n_caminho = caminho.unicode_len();
                if n_caminho == 0 {
                    proof {
                        assert(nome_atual == nome_entrada_anexo(caminho@));
                        assert forall|p: Seq<char>|
                            caminho_de_anexo_valido(p) && nome_atual == nome_entrada_anexo(
                                p,
                            ) implies false by {
                            lema_prefixo_anexo(nome_atual, p);
                            lema_prefixo_anexo(nome_atual, caminho@);
                        }
                    }
                } else if caminho.get_char(n_caminho - 1) == '/' {
                    proof {
                        assert(nome_atual == nome_entrada_anexo(caminho@));
                        assert forall|p: Seq<char>|
                            caminho_de_anexo_valido(p) && nome_atual == nome_entrada_anexo(
                                p,
                            ) implies false by {
                            lema_prefixo_anexo(nome_atual, p);
                            lema_prefixo_anexo(nome_atual, caminho@);
                            assert(p == caminho@);
                        }
                    }
                } else {
                    proof {
                        tem_caminho = true;
                        pc = caminho@;
                        assert(nome_atual == nome_entrada_anexo(pc));
                    }
                    if caminho_ja_extraido(&extraidos, caminho.as_str()) {
                    } else {
                        match ler_entrada(&mut arq, nomes[k].as_str()) {
                            Err(_) => {
                                proof {
                                    assert forall|p: Seq<char>|
                                        caminho_de_anexo_valido(p) && conteudo.contains_key(
                                            nome_entrada_anexo(p),
                                        ) && nome_atual == nome_entrada_anexo(p) implies false by {
                                        assert(!conteudo.contains_key(nome_atual));
                                    }
                                }
                            },
                            Ok(dados) => {
                                let resumo = calcular_hash_bytes(dados.as_slice());
                                let integridade_ok = match procurar_valor(
                                    &manifesto.hashes_anexos,
                                    caminho.as_str(),
                                ) {
                                    None => true,
                                    Some(esperado) => textos_iguais(
                                        esperado.as_str(),
                                        resumo.as_str(),
                                    ),
                                };
                                proof {
                                    empurrado = true;
                                }
                                extraidos.push(
                                    AnexoRestaurado {
                                        caminho_interno: caminho,
                                        dados,
                                        integridade_ok,
                                    },
                                );
                                proof {
                                    assert(extraidos@[antes.len() as int]@.caminho_interno == pc);
                                    assert forall|i: int, j: int|
                                        0 <= i < j < extraidos@.len() implies (
                                    #[trigger] extraidos@[i])@.caminho_interno != (
                                    #[trigger] extraidos@[j])@.caminho_interno by {
                                        if j == extraidos@.len() - 1 {
                                            assert(extraidos@[i] == antes[i]);
                                            assert(antes[i]@.caminho_interno != pc);
                                        }
                                    }
                                }
                            },
                        }
                    }
                }
            },
        }
        proof {
            let novo = extraidos@;
            assert forall|p: Seq<char>|
                caminho_de_anexo_valido(p) && #[trigger] conteudo.contains_key(
                    nome_entrada_anexo(p),
                ) && (exists|j: int| 0 <= j < k + 1 && vnomes[j] == nome_entrada_anexo(p)) implies
                exists|i: int|
                    0 <= i < novo.len() && (#[trigger] novo[i])@.caminho_interno == p by {
                let j = choose|j: int| 0 <= j < k + 1 && vnomes[j] == nome_entrada_anexo(p);
                if j < k {
                    assert(exists|j2: int| 0 <= j2 < k && vnomes[j2] == nome_entrada_anexo(p));
                    let i = choose|i: int|
                        0 <= i < antes.len() && (#[trigger] antes[i])@.caminho_interno == p;
                    assert(novo[i] == antes[i]);
                } else {
                    assert(nome_atual == nome_entrada_anexo(p));
                    assert(tem_caminho);
                    lema_nomes_de_entrada_distintos(p, pc);
                    assert(p == pc);
                    if empurrado {
                        assert(novo[antes.len() as int]@.caminho_interno == pc);
                    } else {
                        let i = choose|i: int|
                            0 <= i < antes.len() && (#[trigger] antes[i])@.caminho_interno == pc;
                        assert(novo[i]@.caminho_interno == pc);
                    }
                }
            }
        }
        k += 1;
    }
    let plano = PlanoRestauracao { manifesto, banco, anexos: extraidos };
    proof {
        let va = vista_restaurados(plano.anexos@);
        assert forall|i: int| 0 <= i < plano.anexos@.len() implies #[trigger] va[i]
            == plano.anexos@[i]@ by {}
        assert forall|p: Seq<char>|
            caminho_de_anexo_valido(p) && vnomes.contains(nome_entrada_anexo(p))
                && #[trigger] conteudo.contains_key(nome_entrada_anexo(p)) implies exists|i: int|
            0 <= i < va.len() && (#[trigger] va[i]).caminho_interno == p by {
            let j = choose|j: int| 0 <= j < vnomes.len() && vnomes[j] == nome_entrada_anexo(p);
            assert(exists|j2: int| 0 <= j2 < k && vnomes[j2] == nome_entrada_anexo(p));
            assert(exists|i: int|
                0 <= i < plano.anexos@.len() && (#[trigger] plano.anexos@[i])@.caminho_interno
                    == p);
            let i = choose|i: int|
                0 <= i < plano.anexos@.len() && (#[trigger] plano.anexos@[i])@.caminho_interno
                    == p;
            assert(va[i].caminho_interno == p);
        }
        assert(anexos_restaurados_corretos(conteudo, analise_nomes(arquivo@), m, va));
    }
    Ok(plano)
}

// =============================================================================
// Leis de ida e volta e de validação
// =============================================================================

/// Ida e volta de um backup completo. Sobre o conteúdo que `criar_backup`
/// monta, a validação da restauração aceita e devolve exatamente o manifesto
/// e o banco gravados; cada anexo dado está em sua entrada, com os bytes
/// exatos e com o resumo do manifesto conferindo; e não há entrada de anexo
/// além das dadas. Com o contrato de `restaurar_backup`, todo backup bem
/// formado restaura o mesmo banco e o mesmo conjunto de anexos, byte a byte.
#[verifier::rlimit(100)]
#[verifier::spinoff_prover]
pub proof fn lei_ida_e_volta_backup(
    banco: Seq<u8>,
    anexos: Seq<(Seq<char>, Seq<u8>)>,
    versao_app: Seq<char>,
    versao_schema: int,
    data: Seq<char>,
    total_itens: int,
    total_anexos: int,
    versao_suportada: int,
)
    requires
        caminhos_unicos(anexos),
        forall|i: int| 0 <= i < anexos.len() ==> caminho_de_anexo_valido((#[trigger] anexos[i]).0),
        0 <= versao_schema <= versao_suportada <= i32::MAX,
        0 <= total_itens <= i64::MAX,
        0 <= total_anexos <= i64::MAX,
    ensures
        ({
            let m = manifesto_do_backup(
                banco,
                anexos,
                versao_app,
                versao_schema,
                data,
                total_itens,
                total_anexos,
            );
            let conteudo = modelo_backup(banco, anexos, m);
            &&& validacao_backup(conteudo, versao_suportada) == Ok::<
                (ManifestoVista, Seq<u8>),
                ErroBackup,
            >((m, banco))
            &&& forall|i: int|
                0 <= i < anexos.len() ==> {
                    let pa = #[trigger] anexos[i];
                    &&& conteudo.contains_key(nome_entrada_anexo(pa.0))
                    &&& conteudo[nome_entrada_anexo(pa.0)] == pa.1
                    &&& integridade_anexo(m, pa.0, pa.1)
                }
            &&& forall|p: Seq<char>|
                #[trigger] conteudo.contains_key(nome_entrada_anexo(p)) ==> exists|i: int|
                    0 <= i < anexos.len() && (#[trigger] anexos[i]).0 == p
        }),
{
    let m = manifesto_do_backup(
        banco,
        anexos,
        versao_app,
        versao_schema,
        data,
        total_itens,
        total_anexos,
    );
    let es = entradas_do_backup(banco, anexos, m);
    let conteudo = modelo_backup(banco, anexos, m);
    let n = anexos.len() as int;
    lema_entradas_do_backup_unicas(banco, anexos, m);
    assert(es[n + 1] == ("manifesto.json"@, codifica_manifesto(m)));
    assert(es[0] == ("banco.sqlite"@, banco));
    lema_mapa_de_entradas(es, "manifesto.json"@);
    lema_mapa_de_entradas(es, "banco.sqlite"@);
    assert(conteudo.contains_key("manifesto.json"@));
    assert(conteudo["manifesto.json"@] == codifica_manifesto(m));
    crate::manifesto::lema_manifesto_ida_e_volta(m);
    assert(conteudo.contains_key("banco.sqlite"@));
    assert(conteudo["banco.sqlite"@] == banco);
    assert(validacao_backup(conteudo, versao_suportada) == Ok::<
        (ManifestoVista, Seq<u8>),
        ErroBackup,
    >((m, banco)));
    assert forall|i: int| 0 <= i < anexos.len() implies {
        let pa = #[trigger] anexos[i];
        &&& conteudo.contains_key(nome_entrada_anexo(pa.0))
        &&& conteudo[nome_entrada_anexo(pa.0)] == pa.1
        &&& integridade_anexo(m, pa.0, pa.1)
    } by {
        let pa = anexos[i];
        assert(es[i + 1] == (nome_entrada_anexo(pa.0), pa.1));
        lema_mapa_de_entradas(es, nome_entrada_anexo(pa.0));
        assert(conteudo.contains_key(nome_entrada_anexo(pa.0)));
        assert(conteudo[nome_entrada_anexo(pa.0)] == pa.1);
        assert(m.hashes_anexos[i] == (pa.0, hash_sha256_de(pa.1)));
        assert(crate::modelo::chaves_unicas(m.hashes_anexos));
        crate::modelo::lema_mapa_de_pares_dominio(m.hashes_anexos, pa.0);
        assert(mapa_de_pares(m.hashes_anexos).contains_key(pa.0));
        assert(mapa_de_pares(m.hashes_anexos)[pa.0] == hash_sha256_de(pa.1));
    }
    assert forall|p: Seq<char>| #[trigger] conteudo.contains_key(nome_entrada_anexo(p)) implies
        exists|i: int| 0 <= i < anexos.len() && (#[trigger] anexos[i]).0 == p by {
        lema_mapa_de_entradas(es, nome_entrada_anexo(p));
        let j = choose|j: int| 0 <= j < es.len() && (#[trigger] es[j]).0 == nome_entrada_anexo(p);
        lema_nomes_de_entrada_distintos(p, p);
        assert(0 < j < n + 1);
        assert(es[j] == (nome_entrada_anexo(anexos[j - 1].0), anexos[j - 1].1));
        lema_nomes_de_entrada_distintos(anexos[j - 1].0, p);
        assert(anexos[j - 1].0 == p);
    }
}

/// Detecção de violação: num arquivo de backup em que os bytes da entrada do
/// banco foram trocados por bytes com outro resumo, a validação falha com
/// `Integridade` — e, portanto, `restaurar_backup` devolve esse erro sem
/// entregar plano algum, e nada do estado vivo é tocado.
#[verifier::rlimit(100)]
#[verifier::spinoff_prover]
pub proof fn lei_deteccao_integridade(
    banco: Seq<u8>,
    anexos: Seq<(Seq<char>, Seq<u8>)>,
    versao_app: Seq<char>,
    versao_schema: int,
    data: Seq<char>,
    total_itens: int,
    total_anexos: int,
    versao_suportada: int,
    banco_adulterado: Seq<u8>,
)
    requires
        caminhos_unicos(anexos),
        forall|i: int| 0 <= i < anexos.len() ==> caminho_de_anexo_valido((#[trigger] anexos[i]).0),
        0 <= versao_schema <= versao_suportada <= i32::MAX,
        0 <= total_itens <= i64::MAX,
        0 <= total_anexos <= i64::MAX,
        hash_sha256_de(banco_adulterado) != hash_sha256_de(banco),
    ensures
        ({
            let m = manifesto_do_backup(
                banco,
                anexos,
                versao_app,
                versao_schema,
                data,
                total_itens,
                total_anexos,
            );
            let adulterado = modelo_backup(banco, anexos, m).insert(
                "banco.sqlite"@,
                banco_adulterado,
            );
            validacao_backup(adulterado, versao_suportada) == Err::<
                (ManifestoVista, Seq<u8>),
                ErroBackup,
            >(ErroBackup::Integridade)
        }),
{
    lei_ida_e_volta_backup(
        banco,
        anexos,
        versao_app,
        versao_schema,
        data,
        total_itens,
        total_anexos,
        versao_suportada,
    );
    lema_nomes_de_entrada_distintos(Seq::empty(), Seq::empty());
}

/// Tolerância a anexo adulterado: trocar os bytes de uma entrada de anexo
/// (sem tocar a entrada do banco) não impede a validação, e o anexo trocado
/// sai com a marca de integridade desligada — os demais continuam conferindo.
#[verifier::rlimit(100)]
#[verifier::spinoff_prover]
pub proof fn lei_tolerancia_anexo(
    banco: Seq<u8>,
    anexos: Seq<(Seq<char>, Seq<u8>)>,
    versao_app: Seq<char>,
    versao_schema: int,
    data: Seq<char>,
    total_itens: int,
    total_anexos: int,
    versao_suportada: int,
    idx: int,
    dados_adulterados: Seq<u8>,
)
    requires
        caminhos_unicos(anexos),
        forall|i: int| 0 <= i < anexos.len() ==> caminho_de_anexo_valido((#[trigger] anexos[i]).0),
        0 <= versao_schema <= versao_suportada <= i32::MAX,
        0 <= total_itens <= i64::MAX,
        0 <= total_anexos <= i64::MAX,
        0 <= idx < anexos.len(),
        hash_sha256_de(dados_adulterados) != hash_sha256_de(anexos[idx].1),
    ensures
        ({
            let m = manifesto_do_backup(
                banco,
                anexos,
                versao_app,
                versao_schema,
                data,
                total_itens,
                total_anexos,
            );
            let adulterado = modelo_backup(banco, anexos, m).insert(
                nome_entrada_anexo(anexos[idx].0),
                dados_adulterados,
            );
            &&& validacao_backup(adulterado, versao_suportada) == Ok::<
                (ManifestoVista, Seq<u8>),
                ErroBackup,
            >((m, banco))
            &&& !integridade_anexo(m, anexos[idx].0, dados_adulterados)
        }),
{
    lei_ida_e_volta_backup(
        banco,
        anexos,
        versao_app,
        versao_schema,
        data,
        total_itens,
        total_anexos,
        versao_suportada,
    );
    let m = manifesto_do_backup(
        banco,
        anexos,
        versao_app,
        versao_schema,
        data,
        total_itens,
        total_anexos,
    );
    lema_nomes_de_entrada_distintos(anexos[idx].0, anexos[idx].0);
    assert(m.hashes_anexos[idx] == (anexos[idx].0, hash_sha256_de(anexos[idx].1)));
    crate::modelo::lema_mapa_de_pares_dominio(m.hashes_anexos, anexos[idx].0);
    assert(mapa_de_pares(m.hashes_anexos)[anexos[idx].0] == hash_sha256_de(anexos[idx].1));
}

/// Tolerância a anexo ausente: um manifesto que registra o resumo de um
/// caminho sem entrada correspondente no arquivo não impede a validação;
/// aquele anexo simplesmente não existe no arquivo, e a restauração segue
/// sem ele.
#[verifier::rlimit(100)]
#[verifier::spinoff_prover]
pub proof fn lei_anexo_ausente(
    banco: Seq<u8>,
    anexos: Seq<(Seq<char>, Seq<u8>)>,
    versao_app: Seq<char>,
    versao_schema: int,
    data: Seq<char>,
    total_itens: int,
    total_anexos: int,
    versao_suportada: int,
    caminho_extra: Seq<char>,
    resumo_extra: Seq<char>,
)
    requires
        caminhos_unicos(anexos),
        forall|i: int| 0 <= i < anexos.len() ==> caminho_de_anexo_valido((#[trigger] anexos[i]).0),
        0 <= versao_schema <= versao_suportada <= i32::MAX,
        0 <= total_itens <= i64::MAX,
        0 <= total_anexos <= i64::MAX,
        forall|i: int| 0 <= i < anexos.len() ==> (#[trigger] anexos[i]).0 != caminho_extra,
    ensures
        ({
            let m = manifesto_do_backup(
                banco,
                anexos,
                versao_app,
                versao_schema,
                data,
                total_itens,
                total_anexos,
            );
            let m2 = ManifestoVista {
                hashes_anexos: m.hashes_anexos.push((caminho_extra, resumo_extra)),
                ..m
            };
            let conteudo = modelo_backup(banco, anexos, m2);
            &&& validacao_backup(conteudo, versao_suportada) == Ok::<
                (ManifestoVista, Seq<u8>),
                ErroBackup,
            >((m2, banco))
            &&& !conteudo.contains_key(nome_entrada_anexo(caminho_extra))
        }),
{
    let m = manifesto_do_backup(
        banco,
        anexos,
        versao_app,
        versao_schema,
        data,
        total_itens,
        total_anexos,
    );
    let m2 = ManifestoVista { hashes_anexos: m.hashes_anexos.push((caminho_extra, resumo_extra)), ..m };
    let es = entradas_do_backup(banco, anexos, m2);
    let conteudo = modelo_backup(banco, anexos, m2);
    let n = anexos.len() as int;
    lema_entradas_do_backup_unicas(banco, anexos, m2);
    assert(es[n + 1] == ("manifesto.json"@, codifica_manifesto(m2)));
    assert(es[0] == ("banco.sqlite"@, banco));
    lema_mapa_de_entradas(es, "manifesto.json"@);
    lema_mapa_de_entradas(es, "banco.sqlite"@);
    crate::manifesto::lema_manifesto_ida_e_volta(m2);
    if conteudo.contains_key(nome_entrada_anexo(caminho_extra)) {
        lema_mapa_de_entradas(es, nome_entrada_anexo(caminho_extra));
        let j = choose|j: int|
            0 <= j < es.len() && (#[trigger] es[j]).0 == nome_entrada_anexo(caminho_extra);
        lema_nomes_de_entrada_distintos(caminho_extra, caminho_extra);
        assert(0 < j < n + 1);
        assert(es[j] == (nome_entrada_anexo(anexos[j - 1].0), anexos[j - 1].1));
        lema_nomes_de_entrada_distintos(anexos[j - 1].0, caminho_extra);
        assert(anexos[j - 1].0 == caminho_extra);
    }
}

/// Porta de versão: um manifesto com esquema mais novo que o suportado faz a
/// validação falhar com `VersaoIncompativel`, que nomeia as duas versões —
/// antes de qualquer banco ser extraído ou conferido, e portanto sem tocar
/// nenhum arquivo vivo.
pub proof fn lei_porta_de_versao(conteudo: Map<Seq<char>, Seq<u8>>, versao_suportada: int)
    requires
        conteudo.contains_key("manifesto.json"@),
        analisa_manifesto(conteudo["manifesto.json"@]) is Some,
        analisa_manifesto(conteudo["manifesto.json"@])->Some_0.versao_schema > versao_suportada,
    ensures
        validacao_backup(conteudo, versao_suportada) == Err::<
            (ManifestoVista, Seq<u8>),
            ErroBackup,
        >(
            ErroBackup::VersaoIncompativel {
                encontrada: analisa_manifesto(
                    conteudo["manifesto.json"@],
                )->Some_0.versao_schema as i32,
                suportada: versao_suportada as i32,
            },
        ),
{
}

} // verus!

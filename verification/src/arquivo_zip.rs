//! O contêiner dos arquivos `.vaultbackup`: um ZIP em memória, escrito e lido
//! pela biblioteca externa `zip` por trás de itens confiados. O modelo de um
//! arquivo é o mapa de nome de entrada para os bytes descomprimidos; a ordem
//! de escrita é a lista de pares `entradas_escritas`.

use std::io::Cursor;
use std::io::Read;
use std::io::Write;

use vstd::prelude::*;

verus! {

// =============================================================================
// Modelo
// =============================================================================

/// Nomes de entrada sem repetição.
pub open spec fn nomes_unicos(entradas: Seq<(Seq<char>, Seq<u8>)>) -> bool {
    forall|i: int, j: int|
        0 <= i < j < entradas.len() ==> (#[trigger] entradas[i]).0 != (#[trigger] entradas[j]).0
}

/// O mapa de nome para conteúdo descrito por uma lista de entradas.
pub open spec fn mapa_de_entradas(entradas: Seq<(Seq<char>, Seq<u8>)>) -> Map<Seq<char>, Seq<u8>>
    decreases entradas.len(),
{
    if entradas.len() == 0 {
        Map::empty()
    } else {
        mapa_de_entradas(entradas.drop_last()).insert(entradas.last().0, entradas.last().1)
    }
}

/// Um nome está no mapa exatamente quando alguma entrada o traz, e leva ao
/// conteúdo dessa entrada quando os nomes não se repetem.
pub proof fn lema_mapa_de_entradas(entradas: Seq<(Seq<char>, Seq<u8>)>, nome: Seq<char>)
    ensures
        mapa_de_entradas(entradas).contains_key(nome) <==> exists|i: int|
            0 <= i < entradas.len() && (#[trigger] entradas[i]).0 == nome,
        (nomes_unicos(entradas) && mapa_de_entradas(entradas).contains_key(nome)) ==> forall|
            i: int,
        |
            0 <= i < entradas.len() && (#[trigger] entradas[i]).0 == nome ==> mapa_de_entradas(
                entradas,
            )[nome] == entradas[i].1,
    decreases entradas.len(),
{
    if entradas.len() > 0 {
        let n = entradas.len();
        lema_mapa_de_entradas(entradas.drop_last(), nome);
        assert(forall|i: int|
            0 <= i < n - 1 ==> #[trigger] entradas.drop_last()[i] == entradas[i]);
        if entradas.last().0 == nome {
            assert((entradas[n - 1]).0 == nome);
        } else {
            if mapa_de_entradas(entradas).contains_key(nome) {
                let i = choose|i: int|
                    0 <= i < entradas.drop_last().len() && (#[trigger] entradas.drop_last()[i]).0
                        == nome;
                assert((entradas[i]).0 == nome);
            }
            if exists|i: int| 0 <= i < n && (#[trigger] entradas[i]).0 == nome {
                let i = choose|i: int| 0 <= i < n && (#[trigger] entradas[i]).0 == nome;
                assert(i < n - 1);
                assert((entradas.drop_last()[i]).0 == nome);
            }
        }
        if nomes_unicos(entradas) && mapa_de_entradas(entradas).contains_key(nome) {
            assert(nomes_unicos(entradas.drop_last()));
            assert forall|i: int|
                0 <= i < n && (#[trigger] entradas[i]).0 == nome implies mapa_de_entradas(
                entradas,
            )[nome] == entradas[i].1 by {
                if i < n - 1 {
                    assert((entradas[i]).0 != (entradas[n - 1]).0);
                    assert((entradas.drop_last()[i]).0 == nome);
                    assert(mapa_de_entradas(entradas.drop_last()).contains_key(nome));
                    assert(mapa_de_entradas(entradas.drop_last())[nome] == entradas[i].1);
                }
            }
        }
    }
}

/// Os nomes de uma lista de entradas, na mesma ordem.
pub open spec fn nomes_de_entradas(entradas: Seq<(Seq<char>, Seq<u8>)>) -> Seq<Seq<char>> {
    entradas.map_values(|e: (Seq<char>, Seq<u8>)| e.0)
}

/// O espaço que uma entrada ocupa no arquivo, com folga para cabeçalhos,
/// campos extras e a expansão máxima da compressão.
pub open spec fn tamanho_de_entrada(nome: Seq<char>, dados: Seq<u8>) -> int {
    vstd::utf8::encode_utf8(nome).len() + dados.len() + 1024 as int
}

/// O espaço total que uma lista de entradas ocupa no arquivo, com as folgas.
pub open spec fn tamanho_de_entradas(entradas: Seq<(Seq<char>, Seq<u8>)>) -> int
    decreases entradas.len(),
{
    if entradas.len() == 0 {
        0
    } else {
        tamanho_de_entradas(entradas.drop_last()) + tamanho_de_entrada(
            entradas.last().0,
            entradas.last().1,
        )
    }
}

/// As entradas cabem nos campos do formato ZIP: cada nome tem até 65535
/// bytes (o campo de comprimento de nome é de 16 bits) e o total, com as
/// folgas, fica abaixo de 2 GiB — bem aquém dos limites de 32 bits do
/// formato, mesmo quando a compressão expande os dados.
pub open spec fn entradas_cabem(entradas: Seq<(Seq<char>, Seq<u8>)>) -> bool {
    &&& forall|j: int|
        0 <= j < entradas.len() ==> vstd::utf8::encode_utf8(
            (#[trigger] entradas[j]).0,
        ).len() <= 65535
    &&& tamanho_de_entradas(entradas) < 0x80000000
}

/// Nenhuma entrada já gravada usa este nome.
pub open spec fn nome_livre(entradas: Seq<(Seq<char>, Seq<u8>)>, nome: Seq<char>) -> bool {
    forall|j: int| 0 <= j < entradas.len() ==> (#[trigger] entradas[j]).0 != nome
}

/// Cada entrada ocupa espaço não negativo, e um prefixo da lista nunca ocupa
/// mais que a lista inteira.
pub proof fn lema_tamanho_de_prefixo(entradas: Seq<(Seq<char>, Seq<u8>)>, j: int)
    requires
        0 <= j <= entradas.len(),
    ensures
        0 <= tamanho_de_entradas(entradas.take(j)),
        tamanho_de_entradas(entradas.take(j)) <= tamanho_de_entradas(entradas),
    decreases entradas.len(),
{
    if entradas.len() == 0 {
        assert(entradas.take(j) =~= entradas);
    } else if j == entradas.len() {
        assert(entradas.take(j) =~= entradas);
        lema_tamanho_de_prefixo(entradas.drop_last(), entradas.len() - 1);
        assert(entradas.drop_last().take(entradas.len() - 1) =~= entradas.drop_last());
    } else {
        assert(entradas.take(j) =~= entradas.drop_last().take(j));
        lema_tamanho_de_prefixo(entradas.drop_last(), j);
        lema_tamanho_de_prefixo(entradas.drop_last(), entradas.len() - 1);
        assert(entradas.drop_last().take(entradas.len() - 1) =~= entradas.drop_last());
    }
}

/// Numa lista de entradas que cabe no arquivo e não repete nomes, cada
/// posição tem nome curto o bastante, nome livre entre as anteriores e
/// espaço acumulado dentro do limite.
pub proof fn lema_escrita_cabe(es: Seq<(Seq<char>, Seq<u8>)>, t: int)
    requires
        nomes_unicos(es),
        entradas_cabem(es),
        0 <= t < es.len(),
    ensures
        vstd::utf8::encode_utf8(es[t].0).len() <= 65535,
        tamanho_de_entradas(es.take(t + 1)) < 0x80000000,
        nome_livre(es.take(t), es[t].0),
{
    lema_tamanho_de_prefixo(es, t + 1);
    assert forall|j: int| 0 <= j < es.take(t).len() implies (#[trigger] es.take(t)[j]).0 != es[t].0
        by {
        assert(es.take(t)[j] == es[j]);
    }
}

// =============================================================================
// Tipos externos
// =============================================================================

#[verifier::external_type_specification]
#[verifier::external_body]
#[verifier::reject_recursive_types(T)]
pub struct ExCursor<T>(Cursor<T>);

#[verifier::external_type_specification]
#[verifier::external_body]
#[verifier::reject_recursive_types(R)]
pub struct ExZipArchive<R>(zip::read::ZipArchive<R>);

/// Um escritor de arquivo ZIP em memória. O tipo externo
/// `zip::ZipWriter<W: Write + Seek>` não pode ser declarado aqui porque seus
/// limites de traço vêm de `std::io`, que o verificador não enxerga; o
/// escritor fica então guardado por inteiro neste invólucro opaco, e seu
/// estado é dado pelo nome `entradas_escritas`.
#[verifier::external_body]
pub struct EscritorArquivo {
    interno: zip::write::ZipWriter<Cursor<Vec<u8>>>,
}

// =============================================================================
// Escrita
// =============================================================================

/// As entradas gravadas até aqui num escritor de ZIP, na ordem de escrita,
/// cada uma com seu nome e seus bytes.
pub uninterp spec fn entradas_escritas(w: EscritorArquivo) -> Seq<(Seq<char>, Seq<u8>)>;

/// O que os bytes de um arquivo ZIP descrevem: nada, se o contêiner não abre;
/// senão, o mapa de nome de entrada para os bytes que se extraem por inteiro
/// dela.
pub uninterp spec fn analise_zip(dados: Seq<u8>) -> Option<Map<Seq<char>, Seq<u8>>>;

/// Cria um escritor de ZIP em memória, sem entradas.
///
/// Apoia-se em `zip::ZipWriter::new` sobre um cursor em memória.
#[verifier::external_body]
pub(crate) fn novo_escritor() -> (w: EscritorArquivo)
    ensures
        entradas_escritas(w) == Seq::<(Seq<char>, Seq<u8>)>::empty(),
{
    EscritorArquivo { interno: zip::write::ZipWriter::new(Cursor::new(Vec::new())) }
}

/// Grava uma entrada comprimida com o nome e os bytes dados.
///
/// Apoia-se em `zip::ZipWriter::start_file` e `Write::write_all`: em caso de
/// sucesso o arquivo passa a ter exatamente uma entrada a mais, com esse nome
/// e esses bytes. Sobre um cursor em memória a gravação só falha num nome
/// repetido, num nome de mais de 65535 bytes (o campo de 16 bits do formato)
/// ou numa entrada que estoure os campos de 32 bits; quando nada disso
/// ameaça — nome novo e curto o bastante, e o total com folgas abaixo de
/// 2 GiB — a gravação é prometida.
#[verifier::external_body]
pub(crate) fn escrever_entrada(w: &mut EscritorArquivo, nome: &str, dados: &[u8]) -> (r: Result<
    (),
    (),
>)
    ensures
        r is Ok ==> entradas_escritas(*final(w)) == entradas_escritas(*old(w)).push(
            (nome@, dados@),
        ),
        (nome_livre(entradas_escritas(*old(w)), nome@) && vstd::utf8::encode_utf8(nome@).len()
            <= 65535 && tamanho_de_entradas(
            entradas_escritas(*old(w)).push((nome@, dados@)),
        ) < 0x80000000) ==> r is Ok,
{
    let opcoes = zip::write::SimpleFileOptions::default().compression_method(
        zip::CompressionMethod::Deflated,
    );
    if w.interno.start_file(nome, opcoes).is_err() {
        return Err(());
    }
    if w.interno.write_all(dados).is_err() {
        return Err(());
    }
    Ok(())
}

/// Fecha o escritor e devolve os bytes completos do arquivo ZIP.
///
/// Apoia-se em `zip::ZipWriter::finish`: quando os nomes gravados não se
/// repetem, os bytes devolvidos formam um arquivo que abre e traz exatamente
/// as entradas gravadas, cada nome com seus bytes, listadas na ordem de
/// escrita — este escritor grava nomes não-ASCII com a marca de UTF-8 do
/// formato, então a leitura devolve cada nome tal como foi gravado. Sobre um
/// cursor em memória, com entradas que couberam na escrita, fechar não falha.
#[verifier::external_body]
pub(crate) fn finalizar_escritor(w: EscritorArquivo) -> (r: Result<Vec<u8>, ()>)
    ensures
        (r is Ok && nomes_unicos(entradas_escritas(w))) ==> analise_zip(r->Ok_0@) == Some(
            mapa_de_entradas(entradas_escritas(w)),
        ),
        (r is Ok && nomes_unicos(entradas_escritas(w))) ==> analise_nomes(r->Ok_0@)
            == nomes_de_entradas(entradas_escritas(w)),
        (nomes_unicos(entradas_escritas(w)) && entradas_cabem(entradas_escritas(w))) ==> r is Ok,
{
    match w.interno.finish() {
        Ok(cursor) => Ok(cursor.into_inner()),
        Err(_) => Err(()),
    }
}

// =============================================================================
// Leitura
// =============================================================================

/// O conteúdo de um arquivo ZIP aberto: o mapa de nome de entrada para os
/// bytes que se extraem por inteiro dela.
pub uninterp spec fn conteudo_zip(a: zip::read::ZipArchive<Cursor<Vec<u8>>>) -> Map<
    Seq<char>,
    Seq<u8>,
>;

/// Os nomes de entrada listados pelo arquivo, na ordem do índice central.
pub uninterp spec fn nomes_zip(a: zip::read::ZipArchive<Cursor<Vec<u8>>>) -> Seq<Seq<char>>;

/// Os nomes de entrada que os bytes de um arquivo ZIP listam, na ordem do
/// índice central, já decodificados para texto.
pub uninterp spec fn analise_nomes(dados: Seq<u8>) -> Seq<Seq<char>>;

/// Abre um arquivo ZIP a partir de seus bytes.
///
/// Apoia-se em `zip::ZipArchive::new`: abre exatamente quando os bytes formam
/// um contêiner válido; o conteúdo do arquivo aberto é o que os bytes
/// descrevem, e a lista de nomes é a do índice central. Nada liga a lista de
/// nomes ao mapa de conteúdo num arquivo de origem alheia: uma entrada
/// gravada sem a marca de UTF-8 do formato é procurada pelos bytes crus do
/// nome, mas listada pela decodificação cp437 deles, que pode ser outro
/// texto — e dois nomes crus distintos podem até ser listados iguais.
#[verifier::external_body]
pub(crate) fn abrir_arquivo(dados: &Vec<u8>) -> (r: Result<
    zip::read::ZipArchive<Cursor<Vec<u8>>>,
    (),
>)
    ensures
        (r is Ok) == (analise_zip(dados@) is Some),
        r is Ok ==> conteudo_zip(r->Ok_0) == analise_zip(dados@)->Some_0,
        r is Ok ==> nomes_zip(r->Ok_0) == analise_nomes(dados@),
{
    match zip::read::ZipArchive::new(Cursor::new(dados.clone())) {
        Ok(a) => Ok(a),
        Err(_) => Err(()),
    }
}

/// Lista os nomes de entrada do arquivo.
///
/// Apoia-se em `zip::ZipArchive::file_names`.
#[verifier::external_body]
pub(crate) fn listar_nomes(a: &zip::read::ZipArchive<Cursor<Vec<u8>>>) -> (r: Vec<String>)
    ensures
        r@.map_values(|s: String| s@) == nomes_zip(*a),
{
    a.file_names().map(|s| s.to_string()).collect()
}

/// Extrai por inteiro a entrada com o nome dado.
///
/// Apoia-se em `zip::ZipArchive::by_name` e `Read::read_to_end`: devolve os
/// bytes exatamente quando a entrada existe e se extrai por inteiro, e não
/// altera o conteúdo do arquivo.
#[verifier::external_body]
pub(crate) fn ler_entrada(
    a: &mut zip::read::ZipArchive<Cursor<Vec<u8>>>,
    nome: &str,
) -> (r: Result<Vec<u8>, ()>)
    ensures
        conteudo_zip(*final(a)) == conteudo_zip(*old(a)),
        nomes_zip(*final(a)) == nomes_zip(*old(a)),
        (r is Ok) == conteudo_zip(*old(a)).contains_key(nome@),
        r is Ok ==> r->Ok_0@ == conteudo_zip(*old(a))[nome@],
{
    let mut entrada = match a.by_name(nome) {
        Ok(e) => e,
        Err(_) => {
            return Err(());
        },
    };
    let mut bytes = Vec::new();
    match entrada.read_to_end(&mut bytes) {
        Ok(_) => Ok(bytes),
        Err(_) => Err(()),
    }
}

} // verus!

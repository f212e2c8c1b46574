//! O motor de pacotes de pasta: exporta uma pasta e seus itens como um
//! arquivo `.vaultbackup` parcial e valida e extrai um pacote desses para
//! importação. Um pacote não carrega o banco: leva `dados.json`, um documento
//! com a pasta, os itens e os metadados de seus anexos, além das entradas
//! `anexos/...` e do manifesto (com `hash_banco` vazio, a marca de pacote).
//!
//! O documento `dados.json` é JSON canônico com este esquema, validado na
//! leitura: `{"pasta":{"nome":...,"pasta_pai_id":...},"itens":[...]}`; cada
//! item traz `tipo`, `titulo`, `descricao`, `conteudo_nota`,
//! `data_vencimento` e `anexos`; cada anexo traz `nome_original`,
//! `caminho_interno` e `tipo_mime`. Campos opcionais valem `null`.

use vstd::prelude::*;
use vstd::utf8::decode_utf8;
use vstd::utf8::encode_utf8;
use vstd::utf8::valid_utf8;

use crate::arquivo_zip::analise_nomes;
use crate::arquivo_zip::analise_zip;
use crate::arquivo_zip::conteudo_zip;
use crate::arquivo_zip::ler_entrada;
use crate::arquivo_zip::nomes_zip;
use crate::arquivo_zip::entradas_cabem;
use crate::arquivo_zip::entradas_escritas;
use crate::arquivo_zip::lema_escrita_cabe;
use crate::arquivo_zip::nomes_de_entradas;
use crate::arquivo_zip::escrever_entrada;
use crate::arquivo_zip::finalizar_escritor;
use crate::arquivo_zip::mapa_de_entradas;
use crate::arquivo_zip::nomes_unicos;
use crate::arquivo_zip::novo_escritor;
use crate::backup::caminhos_repetidos;
use crate::backup::caminhos_unicos;
use crate::backup::entradas_de_anexos;
use crate::backup::lema_nomes_de_entrada_distintos;
use crate::backup::nome_entrada_anexo;
use crate::backup::vista_anexos;
use crate::cripto::calcular_hash_bytes;
use crate::cripto::hash_sha256_de;
use crate::erro::ErroBackup;
use crate::manifesto::codifica_manifesto;
use crate::manifesto::codificar_manifesto;
use crate::modelo::ManifestoBackup;
use crate::modelo::ManifestoVista;
use crate::texto::concatenar;
use crate::json::analisa_texto;
use crate::json::analisar_texto;
use crate::json::casar_literal;
use crate::json::ascii_de;
use crate::json::codifica_texto_bytes;
use crate::json::comeca_com;
use crate::json::lema_analisa_texto_de_codificado;
use crate::json::lema_analisa_texto_limites;
use crate::json::lema_comeca_com_concat;
use crate::json::poe_literal;
use crate::json::poe_texto_json;
use crate::modelo::tipo_de_texto;
use crate::texto::bytes_para_texto;
use crate::modelo::texto_do_tipo;
use crate::modelo::vista_opcao;
use crate::modelo::Item;
use crate::modelo::NovaPasta;
use crate::modelo::Pasta;
use crate::modelo::TipoItem;

verus! {

// =============================================================================
// O documento do pacote
// =============================================================================

/// Os metadados de um anexo dentro do documento de um pacote.
#[derive(Debug, Clone, PartialEq)]
pub struct AnexoPacote {
    pub nome_original: String,
    pub caminho_interno: String,
    pub tipo_mime: String,
}

pub ghost struct AnexoPacoteVista {
    pub nome_original: Seq<char>,
    pub caminho_interno: Seq<char>,
    pub tipo_mime: Seq<char>,
}

impl View for AnexoPacote {
    type V = AnexoPacoteVista;

    open spec fn view(&self) -> AnexoPacoteVista {
        AnexoPacoteVista {
            nome_original: self.nome_original@,
            caminho_interno: self.caminho_interno@,
            tipo_mime: self.tipo_mime@,
        }
    }
}

/// Um item dentro do documento de um pacote: os campos do item e os
/// metadados de seus anexos. Identidades não viajam num pacote: a importação
/// sempre cria itens novos.
#[derive(Debug, Clone, PartialEq)]
pub struct ItemPacote {
    pub tipo: TipoItem,
    pub titulo: String,
    pub descricao: Option<String>,
    pub conteudo_nota: Option<String>,
    pub data_vencimento: Option<String>,
    pub anexos: Vec<AnexoPacote>,
}

pub ghost struct ItemPacoteVista {
    pub tipo: TipoItem,
    pub titulo: Seq<char>,
    pub descricao: Option<Seq<char>>,
    pub conteudo_nota: Option<Seq<char>>,
    pub data_vencimento: Option<Seq<char>>,
    pub anexos: Seq<AnexoPacoteVista>,
}

impl View for ItemPacote {
    type V = ItemPacoteVista;

    open spec fn view(&self) -> ItemPacoteVista {
        ItemPacoteVista {
            tipo: self.tipo,
            titulo: self.titulo@,
            descricao: vista_opcao(self.descricao),
            conteudo_nota: vista_opcao(self.conteudo_nota),
            data_vencimento: vista_opcao(self.data_vencimento),
            anexos: self.anexos@.map_values(|a: AnexoPacote| a@),
        }
    }
}

/// O documento inteiro de um pacote: a pasta exportada e seus itens.
#[derive(Debug, Clone, PartialEq)]
pub struct DocumentoPacote {
    pub nome_pasta: String,
    pub pasta_pai_id: Option<String>,
    pub itens: Vec<ItemPacote>,
}

pub ghost struct DocumentoPacoteVista {
    pub nome_pasta: Seq<char>,
    pub pasta_pai_id: Option<Seq<char>>,
    pub itens: Seq<ItemPacoteVista>,
}

impl View for DocumentoPacote {
    type V = DocumentoPacoteVista;

    open spec fn view(&self) -> DocumentoPacoteVista {
        DocumentoPacoteVista {
            nome_pasta: self.nome_pasta@,
            pasta_pai_id: vista_opcao(self.pasta_pai_id),
            itens: self.itens@.map_values(|i: ItemPacote| i@),
        }
    }
}

/// Os metadados de pacote de um anexo do cofre.
pub open spec fn anexo_pacote_de(a: crate::modelo::AnexoVista) -> AnexoPacoteVista {
    AnexoPacoteVista {
        nome_original: a.nome_original,
        caminho_interno: a.caminho_interno,
        tipo_mime: a.tipo_mime,
    }
}

/// O registro de pacote de um item do cofre.
pub open spec fn item_pacote_de(it: crate::modelo::ItemVista) -> ItemPacoteVista {
    ItemPacoteVista {
        tipo: it.tipo,
        titulo: it.titulo,
        descricao: it.descricao,
        conteudo_nota: it.conteudo_nota,
        data_vencimento: it.data_vencimento,
        anexos: it.anexos.map_values(|a: crate::modelo::AnexoVista| anexo_pacote_de(a)),
    }
}

/// O documento que a exportação de uma pasta com estes itens escreve.
pub open spec fn documento_da_pasta(pasta: Pasta, itens: Seq<Item>) -> DocumentoPacoteVista {
    DocumentoPacoteVista {
        nome_pasta: pasta@.nome,
        pasta_pai_id: pasta@.pasta_pai_id,
        itens: itens.map_values(|it: Item| item_pacote_de(it@)),
    }
}

// =============================================================================
// Escrita canônica do documento (em bytes crus)
// =============================================================================

/// Um campo opcional: `null` ou um texto entre aspas.
pub open spec fn codifica_opcional(o: Option<Seq<u8>>) -> Seq<u8> {
    match o {
        None => ascii_de("null"@),
        Some(b) => seq![34u8] + codifica_texto_bytes(b),
    }
}

pub ghost struct AnexoPacoteCru {
    pub nome_original: Seq<u8>,
    pub caminho_interno: Seq<u8>,
    pub tipo_mime: Seq<u8>,
}

pub ghost struct ItemPacoteCru {
    pub tipo: Seq<u8>,
    pub titulo: Seq<u8>,
    pub descricao: Option<Seq<u8>>,
    pub conteudo_nota: Option<Seq<u8>>,
    pub data_vencimento: Option<Seq<u8>>,
    pub anexos: Seq<AnexoPacoteCru>,
}

pub ghost struct DocumentoCru {
    pub nome_pasta: Seq<u8>,
    pub pasta_pai_id: Option<Seq<u8>>,
    pub itens: Seq<ItemPacoteCru>,
}

/// Os bytes UTF-8 de um campo opcional.
pub open spec fn bytes_de_opcao(o: Option<Seq<char>>) -> Option<Seq<u8>> {
    match o {
        None => None,
        Some(s) => Some(encode_utf8(s)),
    }
}

/// Os bytes de um anexo do documento.
pub open spec fn anexo_cru_de(a: AnexoPacoteVista) -> AnexoPacoteCru {
    AnexoPacoteCru {
        nome_original: encode_utf8(a.nome_original),
        caminho_interno: encode_utf8(a.caminho_interno),
        tipo_mime: encode_utf8(a.tipo_mime),
    }
}

/// Os bytes de um item do documento.
pub open spec fn item_cru_de(it: ItemPacoteVista) -> ItemPacoteCru {
    ItemPacoteCru {
        tipo: encode_utf8(texto_do_tipo(it.tipo)),
        titulo: encode_utf8(it.titulo),
        descricao: bytes_de_opcao(it.descricao),
        conteudo_nota: bytes_de_opcao(it.conteudo_nota),
        data_vencimento: bytes_de_opcao(it.data_vencimento),
        anexos: it.anexos.map_values(|a: AnexoPacoteVista| anexo_cru_de(a)),
    }
}

/// Os bytes de cada campo de texto de um documento.
pub open spec fn bytes_do_documento(doc: DocumentoPacoteVista) -> DocumentoCru {
    DocumentoCru {
        nome_pasta: encode_utf8(doc.nome_pasta),
        pasta_pai_id: bytes_de_opcao(doc.pasta_pai_id),
        itens: doc.itens.map_values(|it: ItemPacoteVista| item_cru_de(it)),
    }
}

/// A escrita canônica de um anexo do documento.
pub open spec fn codifica_anexo_pacote(a: AnexoPacoteCru) -> Seq<u8> {
    ascii_de("{\"nome_original\":\""@) + (codifica_texto_bytes(a.nome_original) + (ascii_de(
        ",\"caminho_interno\":\""@,
    ) + (codifica_texto_bytes(a.caminho_interno) + (ascii_de(",\"tipo_mime\":\""@) + (
    codifica_texto_bytes(a.tipo_mime) + seq![125u8])))))
}

/// A lista de anexos, separados por vírgula e fechada com `]`.
pub open spec fn codifica_lista_anexos(s: Seq<AnexoPacoteCru>) -> Seq<u8>
    decreases s.len(),
{
    if s.len() == 0 {
        seq![93u8]
    } else {
        codifica_anexo_pacote(s[0]) + (if s.len() == 1 {
            seq![93u8]
        } else {
            seq![44u8] + codifica_lista_anexos(s.drop_first())
        })
    }
}

/// A escrita canônica de um item do documento.
pub open spec fn codifica_item_pacote(it: ItemPacoteCru) -> Seq<u8> {
    ascii_de("{\"tipo\":\""@) + (codifica_texto_bytes(it.tipo) + (ascii_de(",\"titulo\":\""@) + (
    codifica_texto_bytes(it.titulo) + (ascii_de(",\"descricao\":"@) + (codifica_opcional(
        it.descricao,
    ) + (ascii_de(",\"conteudo_nota\":"@) + (codifica_opcional(it.conteudo_nota) + (ascii_de(
        ",\"data_vencimento\":"@,
    ) + (codifica_opcional(it.data_vencimento) + (ascii_de(",\"anexos\":["@) + (
    codifica_lista_anexos(it.anexos) + seq![125u8])))))))))))
}

/// A lista de itens, separados por vírgula e fechada com `]`.
pub open spec fn codifica_lista_itens(s: Seq<ItemPacoteCru>) -> Seq<u8>
    decreases s.len(),
{
    if s.len() == 0 {
        seq![93u8]
    } else {
        codifica_item_pacote(s[0]) + (if s.len() == 1 {
            seq![93u8]
        } else {
            seq![44u8] + codifica_lista_itens(s.drop_first())
        })
    }
}

/// A escrita canônica de um documento cru.
pub open spec fn codifica_documento_cru(c: DocumentoCru) -> Seq<u8> {
    ascii_de("{\"pasta\":{\"nome\":\""@) + (codifica_texto_bytes(c.nome_pasta) + (ascii_de(
        ",\"pasta_pai_id\":"@,
    ) + (codifica_opcional(c.pasta_pai_id) + (ascii_de("},\"itens\":["@) + (codifica_lista_itens(
        c.itens,
    ) + seq![125u8])))))
}

/// A escrita canônica de um documento.
pub open spec fn codifica_documento(doc: DocumentoPacoteVista) -> Seq<u8> {
    codifica_documento_cru(bytes_do_documento(doc))
}

// =============================================================================
// Analisador estrito do documento
// =============================================================================

/// Lê um campo opcional: `null`, ou um texto entre aspas.
pub open spec fn analisa_opcional(d: Seq<u8>, pos: int) -> Option<(Option<Seq<u8>>, int)> {
    if comeca_com(d, pos, ascii_de("null"@)) {
        Some((None, pos + 4))
    } else if 0 <= pos < d.len() && d[pos] == 34 {
        match analisa_texto(d, pos + 1) {
            None => None,
            Some((s, fim)) => Some((Some(s), fim)),
        }
    } else {
        None
    }
}

/// Um opcional analisado termina depois de onde começou e dentro dos dados.
pub proof fn lema_analisa_opcional_limites(d: Seq<u8>, pos: int)
    requires
        analisa_opcional(d, pos) is Some,
    ensures
        pos < analisa_opcional(d, pos)->Some_0.1 <= d.len(),
{
    if !comeca_com(d, pos, ascii_de("null"@)) {
        lema_analisa_texto_limites(d, pos + 1);
    } else {
        reveal_strlit("null");
    }
}

/// Lê um anexo do documento a partir de `pos`.
pub open spec fn analisa_anexo_pacote(d: Seq<u8>, pos: int) -> Option<(AnexoPacoteCru, int)> {
    match fim_lit(d, pos, "{\"nome_original\":\""@) {
        None => None,
        Some(p1) => match analisa_texto(d, p1) {
            None => None,
            Some((nome_original, p2)) => match fim_lit(d, p2, ",\"caminho_interno\":\""@) {
                None => None,
                Some(p3) => match analisa_texto(d, p3) {
                    None => None,
                    Some((caminho_interno, p4)) => match fim_lit(d, p4, ",\"tipo_mime\":\""@) {
                        None => None,
                        Some(p5) => match analisa_texto(d, p5) {
                            None => None,
                            Some((tipo_mime, p6)) => {
                                if p6 < d.len() && d[p6] == 125 {
                                    Some(
                                        (
                                            AnexoPacoteCru { nome_original, caminho_interno, tipo_mime },
                                            p6 + 1,
                                        ),
                                    )
                                } else {
                                    None
                                }
                            },
                        },
                    },
                },
            },
        },
    }
}

/// Os dados trazem o literal ASCII `lit` em `pos`; em caso afirmativo, a
/// posição logo após ele.
pub open spec fn fim_lit(d: Seq<u8>, pos: int, lit: Seq<char>) -> Option<int> {
    if comeca_com(d, pos, ascii_de(lit)) {
        Some(pos + lit.len() as int)
    } else {
        None
    }
}

/// Um anexo analisado termina depois de onde começou e dentro dos dados.
pub proof fn lema_analisa_anexo_limites(d: Seq<u8>, pos: int)
    requires
        analisa_anexo_pacote(d, pos) is Some,
    ensures
        pos < analisa_anexo_pacote(d, pos)->Some_0.1 <= d.len(),
{
    reveal_strlit("{\"nome_original\":\"");
    let p1 = fim_lit(d, pos, "{\"nome_original\":\""@)->Some_0;
    lema_analisa_texto_limites(d, p1);
    let p2 = analisa_texto(d, p1)->Some_0.1;
    let p3 = fim_lit(d, p2, ",\"caminho_interno\":\""@)->Some_0;
    lema_analisa_texto_limites(d, p3);
    let p4 = analisa_texto(d, p3)->Some_0.1;
    let p5 = fim_lit(d, p4, ",\"tipo_mime\":\""@)->Some_0;
    lema_analisa_texto_limites(d, p5);
}

/// Lê a lista de anexos a partir de `pos` (logo após o `[`), até o `]`.
pub open spec fn analisa_lista_anexos(d: Seq<u8>, pos: int) -> Option<(Seq<AnexoPacoteCru>, int)>
    decreases d.len() - pos,
    when pos >= 0
    via analisa_lista_anexos_decresce
{
    if pos >= d.len() {
        None
    } else if d[pos] == 93 {
        Some((seq![], pos + 1))
    } else {
        match analisa_anexo_pacote(d, pos) {
            None => None,
            Some((a, p1)) => {
                if p1 < d.len() && d[p1] == 44 {
                    match analisa_lista_anexos(d, p1 + 1) {
                        None => None,
                        Some((resto, p2)) => Some((seq![a] + resto, p2)),
                    }
                } else if p1 < d.len() && d[p1] == 93 {
                    Some((seq![a], p1 + 1))
                } else {
                    None
                }
            },
        }
    }
}

#[via_fn]
proof fn analisa_lista_anexos_decresce(d: Seq<u8>, pos: int) {
    if 0 <= pos < d.len() && d[pos] != 93 {
        if analisa_anexo_pacote(d, pos) is Some {
            lema_analisa_anexo_limites(d, pos);
        }
    }
}

/// Lê um item do documento a partir de `pos`.
pub open spec fn analisa_item_pacote(d: Seq<u8>, pos: int) -> Option<(ItemPacoteCru, int)> {
    match fim_lit(d, pos, "{\"tipo\":\""@) {
        None => None,
        Some(p1) => match analisa_texto(d, p1) {
            None => None,
            Some((tipo, p2)) => match fim_lit(d, p2, ",\"titulo\":\""@) {
                None => None,
                Some(p3) => match analisa_texto(d, p3) {
                    None => None,
                    Some((titulo, p4)) => match fim_lit(d, p4, ",\"descricao\":"@) {
                        None => None,
                        Some(p5) => match analisa_opcional(d, p5) {
                            None => None,
                            Some((descricao, p6)) => analisa_item_pacote_resto(
                                d,
                                p6,
                                tipo,
                                titulo,
                                descricao,
                            ),
                        },
                    },
                },
            },
        },
    }
}

/// A metade final de um item, de `conteudo_nota` em diante.
pub open spec fn analisa_item_pacote_resto(
    d: Seq<u8>,
    p6: int,
    tipo: Seq<u8>,
    titulo: Seq<u8>,
    descricao: Option<Seq<u8>>,
) -> Option<(ItemPacoteCru, int)> {
    match fim_lit(d, p6, ",\"conteudo_nota\":"@) {
        None => None,
        Some(p7) => match analisa_opcional(d, p7) {
            None => None,
            Some((conteudo_nota, p8)) => match fim_lit(d, p8, ",\"data_vencimento\":"@) {
                None => None,
                Some(p9) => match analisa_opcional(d, p9) {
                    None => None,
                    Some((data_vencimento, p10)) => match fim_lit(d, p10, ",\"anexos\":["@) {
                        None => None,
                        Some(p11) => match analisa_lista_anexos(d, p11) {
                            None => None,
                            Some((anexos, p12)) => {
                                if p12 < d.len() && d[p12] == 125 {
                                    Some(
                                        (
                                            ItemPacoteCru {
                                                tipo,
                                                titulo,
                                                descricao,
                                                conteudo_nota,
                                                data_vencimento,
                                                anexos,
                                            },
                                            p12 + 1,
                                        ),
                                    )
                                } else {
                                    None
                                }
                            },
                        },
                    },
                },
            },
        },
    }
}

/// Um item analisado termina depois de onde começou e dentro dos dados.
pub proof fn lema_analisa_item_limites(d: Seq<u8>, pos: int)
    requires
        analisa_item_pacote(d, pos) is Some,
    ensures
        pos < analisa_item_pacote(d, pos)->Some_0.1 <= d.len(),
{
    reveal_strlit("{\"tipo\":\"");
    let p1 = fim_lit(d, pos, "{\"tipo\":\""@)->Some_0;
    lema_analisa_texto_limites(d, p1);
    let p2 = analisa_texto(d, p1)->Some_0.1;
    let p3 = fim_lit(d, p2, ",\"titulo\":\""@)->Some_0;
    lema_analisa_texto_limites(d, p3);
    let p4 = analisa_texto(d, p3)->Some_0.1;
    let p5 = fim_lit(d, p4, ",\"descricao\":"@)->Some_0;
    lema_analisa_opcional_limites(d, p5);
    let p6 = analisa_opcional(d, p5)->Some_0.1;
    let p7 = fim_lit(d, p6, ",\"conteudo_nota\":"@)->Some_0;
    lema_analisa_opcional_limites(d, p7);
    let p8 = analisa_opcional(d, p7)->Some_0.1;
    let p9 = fim_lit(d, p8, ",\"data_vencimento\":"@)->Some_0;
    lema_analisa_opcional_limites(d, p9);
    let p10 = analisa_opcional(d, p9)->Some_0.1;
    let p11 = fim_lit(d, p10, ",\"anexos\":["@)->Some_0;
    lema_analisa_lista_anexos_limites(d, p11);
}

/// Uma lista de anexos analisada termina depois de onde começou.
pub proof fn lema_analisa_lista_anexos_limites(d: Seq<u8>, pos: int)
    requires
        analisa_lista_anexos(d, pos) is Some,
        pos >= 0,
    ensures
        pos < analisa_lista_anexos(d, pos)->Some_0.1 <= d.len(),
    decreases d.len() - pos,
{
    if d[pos] != 93 {
        lema_analisa_anexo_limites(d, pos);
        let p1 = analisa_anexo_pacote(d, pos)->Some_0.1;
        if p1 < d.len() && d[p1] == 44 {
            lema_analisa_lista_anexos_limites(d, p1 + 1);
        }
    }
}

/// Lê a lista de itens a partir de `pos` (logo após o `[`), até o `]`.
pub open spec fn analisa_lista_itens(d: Seq<u8>, pos: int) -> Option<(Seq<ItemPacoteCru>, int)>
    decreases d.len() - pos,
    when pos >= 0
    via analisa_lista_itens_decresce
{
    if pos >= d.len() {
        None
    } else if d[pos] == 93 {
        Some((seq![], pos + 1))
    } else {
        match analisa_item_pacote(d, pos) {
            None => None,
            Some((it, p1)) => {
                if p1 < d.len() && d[p1] == 44 {
                    match analisa_lista_itens(d, p1 + 1) {
                        None => None,
                        Some((resto, p2)) => Some((seq![it] + resto, p2)),
                    }
                } else if p1 < d.len() && d[p1] == 93 {
                    Some((seq![it], p1 + 1))
                } else {
                    None
                }
            },
        }
    }
}

#[via_fn]
proof fn analisa_lista_itens_decresce(d: Seq<u8>, pos: int) {
    if 0 <= pos < d.len() && d[pos] != 93 {
        if analisa_item_pacote(d, pos) is Some {
            lema_analisa_item_limites(d, pos);
        }
    }
}

/// Lê um documento inteiro: a escrita canônica, do primeiro byte ao último.
pub open spec fn analisa_documento_cru(d: Seq<u8>) -> Option<DocumentoCru> {
    match fim_lit(d, 0, "{\"pasta\":{\"nome\":\""@) {
        None => None,
        Some(p1) => match analisa_texto(d, p1) {
            None => None,
            Some((nome_pasta, p2)) => match fim_lit(d, p2, ",\"pasta_pai_id\":"@) {
                None => None,
                Some(p3) => match analisa_opcional(d, p3) {
                    None => None,
                    Some((pasta_pai_id, p4)) => match fim_lit(d, p4, "},\"itens\":["@) {
                        None => None,
                        Some(p5) => match analisa_lista_itens(d, p5) {
                            None => None,
                            Some((itens, p6)) => {
                                if p6 + 1 == d.len() && p6 < d.len() && d[p6] == 125 {
                                    Some(DocumentoCru { nome_pasta, pasta_pai_id, itens })
                                } else {
                                    None
                                }
                            },
                        },
                    },
                },
            },
        },
    }
}

/// Um campo opcional cru é UTF-8 válido.
pub open spec fn opcao_valida(o: Option<Seq<u8>>) -> bool {
    match o {
        None => true,
        Some(b) => valid_utf8(b),
    }
}

/// A decodificação UTF-8 de um campo opcional.
pub open spec fn decodifica_opcao(o: Option<Seq<u8>>) -> Option<Seq<char>> {
    match o {
        None => None,
        Some(b) => Some(decode_utf8(b)),
    }
}

/// Um anexo cru com todos os campos em UTF-8 válido.
pub open spec fn anexo_cru_valido(a: AnexoPacoteCru) -> bool {
    valid_utf8(a.nome_original) && valid_utf8(a.caminho_interno) && valid_utf8(a.tipo_mime)
}

/// Um item cru com todos os campos em UTF-8 válido.
pub open spec fn item_cru_valido(it: ItemPacoteCru) -> bool {
    &&& valid_utf8(it.tipo)
    &&& valid_utf8(it.titulo)
    &&& opcao_valida(it.descricao)
    &&& opcao_valida(it.conteudo_nota)
    &&& opcao_valida(it.data_vencimento)
    &&& forall|j: int| 0 <= j < it.anexos.len() ==> anexo_cru_valido(#[trigger] it.anexos[j])
}

/// O anexo de caracteres que um anexo cru escreve.
pub open spec fn anexo_de_cru(a: AnexoPacoteCru) -> AnexoPacoteVista {
    AnexoPacoteVista {
        nome_original: decode_utf8(a.nome_original),
        caminho_interno: decode_utf8(a.caminho_interno),
        tipo_mime: decode_utf8(a.tipo_mime),
    }
}

/// O item de caracteres que um item cru escreve; um tipo desconhecido vale
/// `Nota`, como em toda leitura de tipo do cofre.
pub open spec fn item_de_cru(it: ItemPacoteCru) -> ItemPacoteVista {
    ItemPacoteVista {
        tipo: tipo_de_texto(decode_utf8(it.tipo)),
        titulo: decode_utf8(it.titulo),
        descricao: decodifica_opcao(it.descricao),
        conteudo_nota: decodifica_opcao(it.conteudo_nota),
        data_vencimento: decodifica_opcao(it.data_vencimento),
        anexos: it.anexos.map_values(|a: AnexoPacoteCru| anexo_de_cru(a)),
    }
}

/// A vista de uma lista executável de anexos do documento.
pub open spec fn vista_anexos_pacote(s: Seq<AnexoPacote>) -> Seq<AnexoPacoteVista> {
    s.map_values(|a: AnexoPacote| a@)
}

/// As vistas que uma lista de anexos crus escreve.
pub open spec fn crus_para_anexos(s: Seq<AnexoPacoteCru>) -> Seq<AnexoPacoteVista> {
    s.map_values(|a: AnexoPacoteCru| anexo_de_cru(a))
}

/// A vista de uma lista executável de itens do documento.
pub open spec fn vista_itens_pacote(s: Seq<ItemPacote>) -> Seq<ItemPacoteVista> {
    s.map_values(|it: ItemPacote| it@)
}

/// As vistas que uma lista de itens crus escreve.
pub open spec fn crus_para_itens(s: Seq<ItemPacoteCru>) -> Seq<ItemPacoteVista> {
    s.map_values(|it: ItemPacoteCru| item_de_cru(it))
}

/// Lê um documento dos bytes de `dados.json`: a escrita canônica inteira,
/// com todos os campos de texto em UTF-8 válido.
pub open spec fn analisa_documento(d: Seq<u8>) -> Option<DocumentoPacoteVista> {
    match analisa_documento_cru(d) {
        None => None,
        Some(c) => {
            if valid_utf8(c.nome_pasta) && opcao_valida(c.pasta_pai_id) && (forall|i: int|
                0 <= i < c.itens.len() ==> item_cru_valido(#[trigger] c.itens[i])) {
                Some(
                    DocumentoPacoteVista {
                        nome_pasta: decode_utf8(c.nome_pasta),
                        pasta_pai_id: decodifica_opcao(c.pasta_pai_id),
                        itens: c.itens.map_values(|it: ItemPacoteCru| item_de_cru(it)),
                    },
                )
            } else {
                None
            }
        },
    }
}

// =============================================================================
// Ida e volta do documento
// =============================================================================

/// Sobre dados que trazem um campo opcional codificado, o analisador devolve
/// exatamente o campo original.
pub proof fn lema_analisa_opcional_de_codificado(d: Seq<u8>, pos: int, o: Option<Seq<u8>>)
    requires
        comeca_com(d, pos, codifica_opcional(o)),
    ensures
        analisa_opcional(d, pos) == Some((o, pos + codifica_opcional(o).len())),
{
    reveal_strlit("null");
    match o {
        None => {
            assert(ascii_de("null"@).len() == 4);
        },
        Some(b) => {
            lema_comeca_com_concat(d, pos, seq![34u8], codifica_texto_bytes(b));
            assert(d[pos] == 34) by {
                assert(d.subrange(pos, pos + 1)[0] == d[pos]);
            }
            if comeca_com(d, pos, ascii_de("null"@)) {
                assert(ascii_de("null"@)[0] == 110);
                assert(d.subrange(pos, pos + 4)[0] == d[pos]);
            }
            lema_analisa_texto_de_codificado(d, pos + 1, b);
        },
    }
}

/// Sobre dados que trazem um anexo codificado, o analisador devolve
/// exatamente o anexo original.
#[verifier::rlimit(100)]
#[verifier::spinoff_prover]
pub proof fn lema_analisa_anexo_de_codificado(d: Seq<u8>, pos: int, a: AnexoPacoteCru)
    requires
        comeca_com(d, pos, codifica_anexo_pacote(a)),
    ensures
        analisa_anexo_pacote(d, pos) == Some((a, pos + codifica_anexo_pacote(a).len())),
{
    let l1 = "{\"nome_original\":\""@;
    let l2 = ",\"caminho_interno\":\""@;
    let l3 = ",\"tipo_mime\":\""@;
    reveal_strlit("{\"nome_original\":\"");
    reveal_strlit(",\"caminho_interno\":\"");
    reveal_strlit(",\"tipo_mime\":\"");
    let r2 = codifica_texto_bytes(a.nome_original) + (ascii_de(l2) + (codifica_texto_bytes(
        a.caminho_interno,
    ) + (ascii_de(l3) + (codifica_texto_bytes(a.tipo_mime) + seq![125u8]))));
    lema_comeca_com_concat(d, pos, ascii_de(l1), r2);
    let p1 = pos + l1.len();
    let r3 = ascii_de(l2) + (codifica_texto_bytes(a.caminho_interno) + (ascii_de(l3) + (
    codifica_texto_bytes(a.tipo_mime) + seq![125u8])));
    lema_comeca_com_concat(d, p1, codifica_texto_bytes(a.nome_original), r3);
    lema_analisa_texto_de_codificado(d, p1, a.nome_original);
    let p2 = p1 + codifica_texto_bytes(a.nome_original).len();
    let r4 = codifica_texto_bytes(a.caminho_interno) + (ascii_de(l3) + (codifica_texto_bytes(
        a.tipo_mime,
    ) + seq![125u8]));
    lema_comeca_com_concat(d, p2, ascii_de(l2), r4);
    let p3 = p2 + l2.len();
    let r5 = ascii_de(l3) + (codifica_texto_bytes(a.tipo_mime) + seq![125u8]);
    lema_comeca_com_concat(d, p3, codifica_texto_bytes(a.caminho_interno), r5);
    lema_analisa_texto_de_codificado(d, p3, a.caminho_interno);
    let p4 = p3 + codifica_texto_bytes(a.caminho_interno).len();
    let r6 = codifica_texto_bytes(a.tipo_mime) + seq![125u8];
    lema_comeca_com_concat(d, p4, ascii_de(l3), r6);
    let p5 = p4 + l3.len();
    lema_comeca_com_concat(d, p5, codifica_texto_bytes(a.tipo_mime), seq![125u8]);
    lema_analisa_texto_de_codificado(d, p5, a.tipo_mime);
    let p6 = p5 + codifica_texto_bytes(a.tipo_mime).len();
    assert(d[p6] == 125) by {
        assert(d.subrange(p6, p6 + 1)[0] == d[p6]);
    }
}

/// Sobre dados que trazem uma lista de anexos codificada, o analisador
/// devolve exatamente a lista original.
#[verifier::rlimit(100)]
#[verifier::spinoff_prover]
pub proof fn lema_analisa_lista_anexos_de_codificado(
    d: Seq<u8>,
    pos: int,
    s: Seq<AnexoPacoteCru>,
)
    requires
        comeca_com(d, pos, codifica_lista_anexos(s)),
    ensures
        analisa_lista_anexos(d, pos) == Some((s, pos + codifica_lista_anexos(s).len())),
    decreases s.len(),
{
    reveal_strlit("{\"nome_original\":\"");
    if s.len() == 0 {
        assert(d[pos] == 93) by {
            assert(d.subrange(pos, pos + 1)[0] == d[pos]);
        }
        assert(s =~= Seq::<AnexoPacoteCru>::empty());
    } else {
        let tail: Seq<u8> = if s.len() == 1 {
            seq![93u8]
        } else {
            seq![44u8] + codifica_lista_anexos(s.drop_first())
        };
        lema_comeca_com_concat(d, pos, codifica_anexo_pacote(s[0]), tail);
        lema_analisa_anexo_de_codificado(d, pos, s[0]);
        assert(d[pos] == 123) by {
            assert(ascii_de("{\"nome_original\":\""@)[0] == 123);
            let r = codifica_texto_bytes(s[0].nome_original) + (ascii_de(
                ",\"caminho_interno\":\""@,
            ) + (codifica_texto_bytes(s[0].caminho_interno) + (ascii_de(",\"tipo_mime\":\""@) + (
            codifica_texto_bytes(s[0].tipo_mime) + seq![125u8]))));
            lema_comeca_com_concat(d, pos, ascii_de("{\"nome_original\":\""@), r);
            assert(d.subrange(pos, pos + ascii_de("{\"nome_original\":\""@).len() as int)[0] == d[
                pos
            ]);
        }
        let p1 = pos + codifica_anexo_pacote(s[0]).len();
        if s.len() == 1 {
            assert(d[p1] == 93) by {
                assert(d.subrange(p1, p1 + 1)[0] == d[p1]);
            }
            assert(seq![s[0]] =~= s);
        } else {
            lema_comeca_com_concat(d, p1, seq![44u8], codifica_lista_anexos(s.drop_first()));
            assert(d[p1] == 44) by {
                assert(d.subrange(p1, p1 + 1)[0] == d[p1]);
            }
            lema_analisa_lista_anexos_de_codificado(d, p1 + 1, s.drop_first());
            assert(seq![s[0]] + s.drop_first() =~= s);
        }
    }
}

/// Sobre dados que trazem um item codificado, o analisador devolve
/// exatamente o item original.
#[verifier::rlimit(100)]
#[verifier::spinoff_prover]
pub proof fn lema_analisa_item_de_codificado(d: Seq<u8>, pos: int, it: ItemPacoteCru)
    requires
        comeca_com(d, pos, codifica_item_pacote(it)),
    ensures
        analisa_item_pacote(d, pos) == Some((it, pos + codifica_item_pacote(it).len())),
{
    let l1 = "{\"tipo\":\""@;
    let l2 = ",\"titulo\":\""@;
    let l3 = ",\"descricao\":"@;
    reveal_strlit("{\"tipo\":\"");
    reveal_strlit(",\"titulo\":\"");
    reveal_strlit(",\"descricao\":");
    let r2 = codifica_texto_bytes(it.tipo) + (ascii_de(l2) + (codifica_texto_bytes(it.titulo) + (
    ascii_de(l3) + (codifica_opcional(it.descricao) + (ascii_de(",\"conteudo_nota\":"@) + (
    codifica_opcional(it.conteudo_nota) + (ascii_de(",\"data_vencimento\":"@) + (codifica_opcional(
        it.data_vencimento,
    ) + (ascii_de(",\"anexos\":["@) + (codifica_lista_anexos(it.anexos) + seq![125u8]))))))))));
    lema_comeca_com_concat(d, pos, ascii_de(l1), r2);
    let p1 = pos + l1.len();
    let r3 = ascii_de(l2) + (codifica_texto_bytes(it.titulo) + (ascii_de(l3) + (codifica_opcional(
        it.descricao,
    ) + (ascii_de(",\"conteudo_nota\":"@) + (codifica_opcional(it.conteudo_nota) + (ascii_de(
        ",\"data_vencimento\":"@,
    ) + (codifica_opcional(it.data_vencimento) + (ascii_de(",\"anexos\":["@) + (
    codifica_lista_anexos(it.anexos) + seq![125u8])))))))));
    lema_comeca_com_concat(d, p1, codifica_texto_bytes(it.tipo), r3);
    lema_analisa_texto_de_codificado(d, p1, it.tipo);
    let p2 = p1 + codifica_texto_bytes(it.tipo).len();
    let r4 = codifica_texto_bytes(it.titulo) + (ascii_de(l3) + (codifica_opcional(it.descricao) + (
    ascii_de(",\"conteudo_nota\":"@) + (codifica_opcional(it.conteudo_nota) + (ascii_de(
        ",\"data_vencimento\":"@,
    ) + (codifica_opcional(it.data_vencimento) + (ascii_de(",\"anexos\":["@) + (
    codifica_lista_anexos(it.anexos) + seq![125u8]))))))));
    lema_comeca_com_concat(d, p2, ascii_de(l2), r4);
    let p3 = p2 + l2.len();
    let r5 = ascii_de(l3) + (codifica_opcional(it.descricao) + (ascii_de(",\"conteudo_nota\":"@)
        + (codifica_opcional(it.conteudo_nota) + (ascii_de(",\"data_vencimento\":"@) + (
    codifica_opcional(it.data_vencimento) + (ascii_de(",\"anexos\":["@) + (codifica_lista_anexos(
        it.anexos,
    ) + seq![125u8])))))));
    lema_comeca_com_concat(d, p3, codifica_texto_bytes(it.titulo), r5);
    lema_analisa_texto_de_codificado(d, p3, it.titulo);
    let p4 = p3 + codifica_texto_bytes(it.titulo).len();
    let r6 = codifica_opcional(it.descricao) + (ascii_de(",\"conteudo_nota\":"@) + (
    codifica_opcional(it.conteudo_nota) + (ascii_de(",\"data_vencimento\":"@) + (codifica_opcional(
        it.data_vencimento,
    ) + (ascii_de(",\"anexos\":["@) + (codifica_lista_anexos(it.anexos) + seq![125u8]))))));
    lema_comeca_com_concat(d, p4, ascii_de(l3), r6);
    let p5 = p4 + l3.len();
    let r7 = ascii_de(",\"conteudo_nota\":"@) + (codifica_opcional(it.conteudo_nota) + (ascii_de(
        ",\"data_vencimento\":"@,
    ) + (codifica_opcional(it.data_vencimento) + (ascii_de(",\"anexos\":["@) + (
    codifica_lista_anexos(it.anexos) + seq![125u8])))));
    lema_comeca_com_concat(d, p5, codifica_opcional(it.descricao), r7);
    lema_analisa_opcional_de_codificado(d, p5, it.descricao);
    let p6 = p5 + codifica_opcional(it.descricao).len();
    lema_analisa_item_resto_de_codificado(d, p6, it);
}

/// A metade final de um item codificado é lida de volta sem perda.
#[verifier::rlimit(100)]
#[verifier::spinoff_prover]
proof fn lema_analisa_item_resto_de_codificado(d: Seq<u8>, p6: int, it: ItemPacoteCru)
    requires
        comeca_com(
            d,
            p6,
            ascii_de(",\"conteudo_nota\":"@) + (codifica_opcional(it.conteudo_nota) + (ascii_de(
                ",\"data_vencimento\":"@,
            ) + (codifica_opcional(it.data_vencimento) + (ascii_de(",\"anexos\":["@) + (
            codifica_lista_anexos(it.anexos) + seq![125u8]))))),
        ),
    ensures
        analisa_item_pacote_resto(d, p6, it.tipo, it.titulo, it.descricao) == Some(
            (
                it,
                p6 + (ascii_de(",\"conteudo_nota\":"@) + (codifica_opcional(it.conteudo_nota) + (
                ascii_de(",\"data_vencimento\":"@) + (codifica_opcional(it.data_vencimento) + (
                ascii_de(",\"anexos\":["@) + (codifica_lista_anexos(it.anexos)
                    + seq![125u8])))))).len(),
            ),
        ),
{
    let l4 = ",\"conteudo_nota\":"@;
    let l5 = ",\"data_vencimento\":"@;
    let l6 = ",\"anexos\":["@;
    reveal_strlit(",\"conteudo_nota\":");
    reveal_strlit(",\"data_vencimento\":");
    reveal_strlit(",\"anexos\":[");
    let r8 = codifica_opcional(it.conteudo_nota) + (ascii_de(l5) + (codifica_opcional(
        it.data_vencimento,
    ) + (ascii_de(l6) + (codifica_lista_anexos(it.anexos) + seq![125u8]))));
    lema_comeca_com_concat(d, p6, ascii_de(l4), r8);
    let p7 = p6 + l4.len();
    let r9 = ascii_de(l5) + (codifica_opcional(it.data_vencimento) + (ascii_de(l6) + (
    codifica_lista_anexos(it.anexos) + seq![125u8])));
    lema_comeca_com_concat(d, p7, codifica_opcional(it.conteudo_nota), r9);
    lema_analisa_opcional_de_codificado(d, p7, it.conteudo_nota);
    let p8 = p7 + codifica_opcional(it.conteudo_nota).len();
    let r10 = codifica_opcional(it.data_vencimento) + (ascii_de(l6) + (codifica_lista_anexos(
        it.anexos,
    ) + seq![125u8]));
    lema_comeca_com_concat(d, p8, ascii_de(l5), r10);
    let p9 = p8 + l5.len();
    let r11 = ascii_de(l6) + (codifica_lista_anexos(it.anexos) + seq![125u8]);
    lema_comeca_com_concat(d, p9, codifica_opcional(it.data_vencimento), r11);
    lema_analisa_opcional_de_codificado(d, p9, it.data_vencimento);
    let p10 = p9 + codifica_opcional(it.data_vencimento).len();
    let r12 = codifica_lista_anexos(it.anexos) + seq![125u8];
    lema_comeca_com_concat(d, p10, ascii_de(l6), r12);
    let p11 = p10 + l6.len();
    lema_comeca_com_concat(d, p11, codifica_lista_anexos(it.anexos), seq![125u8]);
    lema_analisa_lista_anexos_de_codificado(d, p11, it.anexos);
    let p12 = p11 + codifica_lista_anexos(it.anexos).len();
    assert(d[p12] == 125) by {
        assert(d.subrange(p12, p12 + 1)[0] == d[p12]);
    }
}

/// Sobre dados que trazem uma lista de itens codificada, o analisador
/// devolve exatamente a lista original.
#[verifier::rlimit(100)]
#[verifier::spinoff_prover]
pub proof fn lema_analisa_lista_itens_de_codificado(d: Seq<u8>, pos: int, s: Seq<ItemPacoteCru>)
    requires
        comeca_com(d, pos, codifica_lista_itens(s)),
    ensures
        analisa_lista_itens(d, pos) == Some((s, pos + codifica_lista_itens(s).len())),
    decreases s.len(),
{
    reveal_strlit("{\"tipo\":\"");
    if s.len() == 0 {
        assert(d[pos] == 93) by {
            assert(d.subrange(pos, pos + 1)[0] == d[pos]);
        }
        assert(s =~= Seq::<ItemPacoteCru>::empty());
    } else {
        let tail: Seq<u8> = if s.len() == 1 {
            seq![93u8]
        } else {
            seq![44u8] + codifica_lista_itens(s.drop_first())
        };
        lema_comeca_com_concat(d, pos, codifica_item_pacote(s[0]), tail);
        lema_analisa_item_de_codificado(d, pos, s[0]);
        assert(d[pos] == 123) by {
            assert(ascii_de("{\"tipo\":\""@)[0] == 123);
            let r = codifica_texto_bytes(s[0].tipo) + (ascii_de(",\"titulo\":\""@) + (
            codifica_texto_bytes(s[0].titulo) + (ascii_de(",\"descricao\":"@) + (codifica_opcional(
                s[0].descricao,
            ) + (ascii_de(",\"conteudo_nota\":"@) + (codifica_opcional(s[0].conteudo_nota) + (
            ascii_de(",\"data_vencimento\":"@) + (codifica_opcional(s[0].data_vencimento) + (
            ascii_de(",\"anexos\":["@) + (codifica_lista_anexos(s[0].anexos)
                + seq![125u8]))))))))));
            lema_comeca_com_concat(d, pos, ascii_de("{\"tipo\":\""@), r);
            assert(d.subrange(pos, pos + ascii_de("{\"tipo\":\""@).len() as int)[0] == d[pos]);
        }
        let p1 = pos + codifica_item_pacote(s[0]).len();
        if s.len() == 1 {
            assert(d[p1] == 93) by {
                assert(d.subrange(p1, p1 + 1)[0] == d[p1]);
            }
            assert(seq![s[0]] =~= s);
        } else {
            lema_comeca_com_concat(d, p1, seq![44u8], codifica_lista_itens(s.drop_first()));
            assert(d[p1] == 44) by {
                assert(d.subrange(p1, p1 + 1)[0] == d[p1]);
            }
            lema_analisa_lista_itens_de_codificado(d, p1 + 1, s.drop_first());
            assert(seq![s[0]] + s.drop_first() =~= s);
        }
    }
}

/// A escrita canônica de um documento cru é lida de volta sem perda.
#[verifier::rlimit(100)]
#[verifier::spinoff_prover]
pub proof fn lema_documento_cru_ida_e_volta(c: DocumentoCru)
    ensures
        analisa_documento_cru(codifica_documento_cru(c)) == Some(c),
{
    let d = codifica_documento_cru(c);
    let l1 = "{\"pasta\":{\"nome\":\""@;
    let l2 = ",\"pasta_pai_id\":"@;
    let l3 = "},\"itens\":["@;
    reveal_strlit("{\"pasta\":{\"nome\":\"");
    reveal_strlit(",\"pasta_pai_id\":");
    reveal_strlit("},\"itens\":[");
    assert(comeca_com(d, 0, d)) by {
        assert(d.subrange(0, d.len() as int) =~= d);
    }
    let r2 = codifica_texto_bytes(c.nome_pasta) + (ascii_de(l2) + (codifica_opcional(
        c.pasta_pai_id,
    ) + (ascii_de(l3) + (codifica_lista_itens(c.itens) + seq![125u8]))));
    lema_comeca_com_concat(d, 0, ascii_de(l1), r2);
    let p1 = l1.len() as int;
    let r3 = ascii_de(l2) + (codifica_opcional(c.pasta_pai_id) + (ascii_de(l3) + (
    codifica_lista_itens(c.itens) + seq![125u8])));
    lema_comeca_com_concat(d, p1, codifica_texto_bytes(c.nome_pasta), r3);
    lema_analisa_texto_de_codificado(d, p1, c.nome_pasta);
    let p2 = p1 + codifica_texto_bytes(c.nome_pasta).len();
    let r4 = codifica_opcional(c.pasta_pai_id) + (ascii_de(l3) + (codifica_lista_itens(c.itens)
        + seq![125u8]));
    lema_comeca_com_concat(d, p2, ascii_de(l2), r4);
    let p3 = p2 + l2.len();
    let r5 = ascii_de(l3) + (codifica_lista_itens(c.itens) + seq![125u8]);
    lema_comeca_com_concat(d, p3, codifica_opcional(c.pasta_pai_id), r5);
    lema_analisa_opcional_de_codificado(d, p3, c.pasta_pai_id);
    let p4 = p3 + codifica_opcional(c.pasta_pai_id).len();
    let r6 = codifica_lista_itens(c.itens) + seq![125u8];
    lema_comeca_com_concat(d, p4, ascii_de(l3), r6);
    let p5 = p4 + l3.len();
    lema_comeca_com_concat(d, p5, codifica_lista_itens(c.itens), seq![125u8]);
    lema_analisa_lista_itens_de_codificado(d, p5, c.itens);
    let p6 = p5 + codifica_lista_itens(c.itens).len();
    assert(d[p6] == 125) by {
        assert(d.subrange(p6, p6 + 1)[0] == d[p6]);
    }
    assert(p6 + 1 == d.len());
}

/// Um documento escrito e lido de volta é o mesmo documento: a exportação de
/// uma pasta não perde campo algum, e a importação recupera exatamente o que
/// foi exportado.
#[verifier::rlimit(100)]
#[verifier::spinoff_prover]
pub proof fn lema_documento_ida_e_volta(doc: DocumentoPacoteVista)
    ensures
        analisa_documento(codifica_documento(doc)) == Some(doc),
{
    broadcast use vstd::utf8::encode_utf8_valid_utf8;
    broadcast use vstd::utf8::encode_utf8_decode_utf8;

    let c = bytes_do_documento(doc);
    lema_documento_cru_ida_e_volta(c);
    assert forall|i: int| 0 <= i < c.itens.len() implies item_cru_valido(
        #[trigger] c.itens[i],
    ) by {
        let itv = doc.itens[i];
        assert(c.itens[i] == bytes_do_documento(doc).itens[i]);
        assert forall|j: int|
            0 <= j < c.itens[i].anexos.len() implies anexo_cru_valido(
            #[trigger] c.itens[i].anexos[j],
        ) by {
            assert(c.itens[i].anexos[j] == AnexoPacoteCru {
                nome_original: encode_utf8(itv.anexos[j].nome_original),
                caminho_interno: encode_utf8(itv.anexos[j].caminho_interno),
                tipo_mime: encode_utf8(itv.anexos[j].tipo_mime),
            });
        }
    }
    let doc2 = analisa_documento(codifica_documento(doc))->Some_0;
    assert forall|i: int| 0 <= i < doc.itens.len() implies #[trigger] doc2.itens[i]
        == doc.itens[i] by {
        let itv = doc.itens[i];
        let cru = c.itens[i];
        crate::modelo::lema_tipo_ida_e_volta(itv.tipo);
        assert forall|j: int|
            0 <= j < itv.anexos.len() implies #[trigger] item_de_cru(cru).anexos[j]
            == itv.anexos[j] by {
            assert(cru.anexos[j] == AnexoPacoteCru {
                nome_original: encode_utf8(itv.anexos[j].nome_original),
                caminho_interno: encode_utf8(itv.anexos[j].caminho_interno),
                tipo_mime: encode_utf8(itv.anexos[j].tipo_mime),
            });
        }
        assert(item_de_cru(cru).anexos =~= itv.anexos);
        assert(doc2.itens[i] == item_de_cru(cru));
    }
    assert(doc2.itens =~= doc.itens);
    assert(doc2 == doc);
}

// =============================================================================
// Escrita executável do documento
// =============================================================================

/// Acrescenta um campo opcional: `null` ou o texto entre aspas.
fn poe_opcional(v: &mut Vec<u8>, o: &Option<String>)
    ensures
        final(v)@ == old(v)@ + codifica_opcional(bytes_de_opcao(vista_opcao(*o))),
{
    match o {
        None => {
            poe_literal(v, "null");
        },
        Some(s) => {
            v.push(34);
            poe_texto_json(v, s.as_str());
            proof {
                assert(v@ =~= old(v)@ + codifica_opcional(bytes_de_opcao(vista_opcao(*o))));
            }
        },
    }
}

/// Acrescenta um anexo do documento.
fn poe_anexo_pacote(v: &mut Vec<u8>, a: &AnexoPacote)
    ensures
        final(v)@ == old(v)@ + codifica_anexo_pacote(anexo_cru_de(a@)),
{
    poe_literal(v, "{\"nome_original\":\"");
    poe_texto_json(v, a.nome_original.as_str());
    poe_literal(v, ",\"caminho_interno\":\"");
    poe_texto_json(v, a.caminho_interno.as_str());
    poe_literal(v, ",\"tipo_mime\":\"");
    poe_texto_json(v, a.tipo_mime.as_str());
    v.push(125);
    proof {
        assert(v@ =~= old(v)@ + codifica_anexo_pacote(anexo_cru_de(a@)));
    }
}

/// Acrescenta a lista de anexos a partir do índice `i`, fechada com `]`.
fn poe_lista_anexos(v: &mut Vec<u8>, anexos: &Vec<AnexoPacote>, i: usize)
    requires
        i <= anexos@.len(),
    ensures
        final(v)@ == old(v)@ + codifica_lista_anexos(
            anexos@.skip(i as int).map_values(|a: AnexoPacote| anexo_cru_de(a@)),
        ),
    decreases anexos@.len() - i,
{
    let ghost su = anexos@.skip(i as int).map_values(|a: AnexoPacote| anexo_cru_de(a@));
    if i == anexos.len() {
        v.push(93);
        proof {
            assert(su =~= Seq::<AnexoPacoteCru>::empty());
            assert(v@ =~= old(v)@ + codifica_lista_anexos(su));
        }
    } else {
        poe_anexo_pacote(v, &anexos[i]);
        if i + 1 < anexos.len() {
            v.push(44);
            poe_lista_anexos(v, anexos, i + 1);
        } else {
            v.push(93);
        }
        proof {
            assert(su[0] == anexo_cru_de(anexos@[i as int]@));
            assert(su.drop_first() =~= anexos@.skip(i + 1).map_values(
                |a: AnexoPacote| anexo_cru_de(a@),
            )) by {
                assert(anexos@.skip(i as int).drop_first() =~= anexos@.skip(i + 1));
            }
            assert(v@ =~= old(v)@ + codifica_lista_anexos(su));
        }
    }
}

/// Acrescenta um item do documento.
#[verifier::rlimit(100)]
#[verifier::spinoff_prover]
fn poe_item_pacote(v: &mut Vec<u8>, it: &ItemPacote)
    ensures
        final(v)@ == old(v)@ + codifica_item_pacote(item_cru_de(it@)),
{
    poe_literal(v, "{\"tipo\":\"");
    let texto_tipo = it.tipo.como_texto();
    poe_texto_json(v, texto_tipo.as_str());
    poe_literal(v, ",\"titulo\":\"");
    poe_texto_json(v, it.titulo.as_str());
    poe_literal(v, ",\"descricao\":");
    poe_opcional(v, &it.descricao);
    poe_literal(v, ",\"conteudo_nota\":");
    poe_opcional(v, &it.conteudo_nota);
    poe_literal(v, ",\"data_vencimento\":");
    poe_opcional(v, &it.data_vencimento);
    poe_literal(v, ",\"anexos\":[");
    poe_lista_anexos(v, &it.anexos, 0);
    v.push(125);
    proof {
        let c = item_cru_de(it@);
        assert(it.anexos@.skip(0) =~= it.anexos@);
        assert(c.anexos =~= it.anexos@.map_values(|a: AnexoPacote| anexo_cru_de(a@))) by {
            assert forall|j: int| 0 <= j < it.anexos@.len() implies #[trigger] c.anexos[j]
                == anexo_cru_de(it.anexos@[j]@) by {
                assert(it@.anexos[j] == it.anexos@[j]@);
            }
        }
        let base = old(v)@;
        let s1 = ascii_de("{\"tipo\":\""@);
        let s2 = codifica_texto_bytes(c.tipo);
        let s3 = ascii_de(",\"titulo\":\""@);
        let s4 = codifica_texto_bytes(c.titulo);
        let s5 = ascii_de(",\"descricao\":"@);
        let s6 = codifica_opcional(c.descricao);
        let s7 = ascii_de(",\"conteudo_nota\":"@);
        let s8 = codifica_opcional(c.conteudo_nota);
        let s9 = ascii_de(",\"data_vencimento\":"@);
        let s10 = codifica_opcional(c.data_vencimento);
        let s11 = ascii_de(",\"anexos\":["@);
        let s12 = codifica_lista_anexos(c.anexos);
        let s13 = seq![125u8];
        let t13 = s13;
        let t12 = s12 + t13;
        let t11 = s11 + t12;
        let t10 = s10 + t11;
        let t9 = s9 + t10;
        let t8 = s8 + t9;
        let t7 = s7 + t8;
        let t6 = s6 + t7;
        let t5 = s5 + t6;
        let t4 = s4 + t5;
        let t3 = s3 + t4;
        let t2 = s2 + t3;
        let t1 = s1 + t2;
        assert(v@ == base + s1 + s2 + s3 + s4 + s5 + s6 + s7 + s8 + s9 + s10 + s11 + s12 + s13);
        vstd::seq_lib::lemma_concat_associative(
            base + s1 + s2 + s3 + s4 + s5 + s6 + s7 + s8 + s9 + s10 + s11,
            s12,
            t13,
        );
        vstd::seq_lib::lemma_concat_associative(
            base + s1 + s2 + s3 + s4 + s5 + s6 + s7 + s8 + s9 + s10,
            s11,
            t12,
        );
        vstd::seq_lib::lemma_concat_associative(
            base + s1 + s2 + s3 + s4 + s5 + s6 + s7 + s8 + s9,
            s10,
            t11,
        );
        vstd::seq_lib::lemma_concat_associative(
            base + s1 + s2 + s3 + s4 + s5 + s6 + s7 + s8,
            s9,
            t10,
        );
        vstd::seq_lib::lemma_concat_associative(base + s1 + s2 + s3 + s4 + s5 + s6 + s7, s8, t9);
        vstd::seq_lib::lemma_concat_associative(base + s1 + s2 + s3 + s4 + s5 + s6, s7, t8);
        vstd::seq_lib::lemma_concat_associative(base + s1 + s2 + s3 + s4 + s5, s6, t7);
        vstd::seq_lib::lemma_concat_associative(base + s1 + s2 + s3 + s4, s5, t6);
        vstd::seq_lib::lemma_concat_associative(base + s1 + s2 + s3, s4, t5);
        vstd::seq_lib::lemma_concat_associative(base + s1 + s2, s3, t4);
        vstd::seq_lib::lemma_concat_associative(base + s1, s2, t3);
        vstd::seq_lib::lemma_concat_associative(base, s1, t2);
        assert(v@ == base + t1);
        assert(codifica_item_pacote(c) == t1);
    }
}

/// Acrescenta a lista de itens a partir do índice `i`, fechada com `]`.
#[verifier::rlimit(100)]
#[verifier::spinoff_prover]
fn poe_lista_itens(v: &mut Vec<u8>, itens: &Vec<ItemPacote>, i: usize)
    requires
        i <= itens@.len(),
    ensures
        final(v)@ == old(v)@ + codifica_lista_itens(
            itens@.skip(i as int).map_values(|it: ItemPacote| item_cru_de(it@)),
        ),
    decreases itens@.len() - i,
{
    let ghost su = itens@.skip(i as int).map_values(|it: ItemPacote| item_cru_de(it@));
    if i == itens.len() {
        v.push(93);
        proof {
            assert(su =~= Seq::<ItemPacoteCru>::empty());
            assert(v@ =~= old(v)@ + codifica_lista_itens(su));
        }
    } else {
        poe_item_pacote(v, &itens[i]);
        if i + 1 < itens.len() {
            v.push(44);
            poe_lista_itens(v, itens, i + 1);
        } else {
            v.push(93);
        }
        proof {
            assert(su[0] == item_cru_de(itens@[i as int]@));
            assert(su.drop_first() =~= itens@.skip(i + 1).map_values(
                |it: ItemPacote| item_cru_de(it@),
            )) by {
                assert(itens@.skip(i as int).drop_first() =~= itens@.skip(i + 1));
            }
            assert(v@ =~= old(v)@ + codifica_lista_itens(su));
        }
    }
}

/// Escreve um documento em sua forma canônica, os bytes de `dados.json`.
pub fn codificar_documento(doc: &DocumentoPacote) -> (r: Vec<u8>)
    ensures
        r@ == codifica_documento(doc@),
{
    let mut v: Vec<u8> = Vec::new();
    poe_literal(&mut v, "{\"pasta\":{\"nome\":\"");
    poe_texto_json(&mut v, doc.nome_pasta.as_str());
    poe_literal(&mut v, ",\"pasta_pai_id\":");
    poe_opcional(&mut v, &doc.pasta_pai_id);
    poe_literal(&mut v, "},\"itens\":[");
    poe_lista_itens(&mut v, &doc.itens, 0);
    v.push(125);
    proof {
        let c = bytes_do_documento(doc@);
        assert(doc.itens@.skip(0) =~= doc.itens@);
        assert(c.itens =~= doc.itens@.map_values(|it: ItemPacote| item_cru_de(it@))) by {
            assert forall|i: int| 0 <= i < doc.itens@.len() implies #[trigger] c.itens[i]
                == item_cru_de(doc.itens@[i]@) by {
                assert(doc@.itens[i] == doc.itens@[i]@);
            }
        }
        assert(v@ =~= codifica_documento_cru(c));
    }
    v
}

// =============================================================================
// Leitura executável do documento
// =============================================================================

/// Lê um campo opcional a partir de `pos`, já decodificado.
fn analisar_opcional(d: &Vec<u8>, pos: usize) -> (r: Option<(Option<String>, usize)>)
    ensures
        r is Some <==> (analisa_opcional(d@, pos as int) is Some && opcao_valida(
            analisa_opcional(d@, pos as int)->Some_0.0,
        )),
        r is Some ==> {
            let (o, fim) = analisa_opcional(d@, pos as int)->Some_0;
            vista_opcao(r->Some_0.0) == decodifica_opcao(o) && r->Some_0.1 as int == fim
        },
{
    proof {
        reveal_strlit("null");
    }
    match casar_literal(d, pos, "null") {
        Some(p) => Some((None, p)),
        None => {
            if pos < d.len() && d[pos] == 34 {
                match analisar_texto(d, pos + 1) {
                    None => None,
                    Some((bytes, fim)) => match bytes_para_texto(&bytes) {
                        None => None,
                        Some(s) => Some((Some(s), fim)),
                    },
                }
            } else {
                None
            }
        },
    }
}

/// Lê um anexo do documento a partir de `pos`, já decodificado.
fn analisar_anexo_pacote(d: &Vec<u8>, pos: usize) -> (r: Option<(AnexoPacote, usize)>)
    ensures
        r is Some <==> (analisa_anexo_pacote(d@, pos as int) is Some && anexo_cru_valido(
            analisa_anexo_pacote(d@, pos as int)->Some_0.0,
        )),
        r is Some ==> {
            let (a, fim) = analisa_anexo_pacote(d@, pos as int)->Some_0;
            r->Some_0.0@ == anexo_de_cru(a) && r->Some_0.1 as int == fim
        },
{
    let p1 = match casar_literal(d, pos, "{\"nome_original\":\"") {
        Some(p) => p,
        None => {
            return None;
        },
    };
    let (nome_b, p2) = match analisar_texto(d, p1) {
        Some(x) => x,
        None => {
            return None;
        },
    };
    proof {
        lema_analisa_texto_limites(d@, p1 as int);
    }
    let p3 = match casar_literal(d, p2, ",\"caminho_interno\":\"") {
        Some(p) => p,
        None => {
            return None;
        },
    };
    let (caminho_b, p4) = match analisar_texto(d, p3) {
        Some(x) => x,
        None => {
            return None;
        },
    };
    proof {
        lema_analisa_texto_limites(d@, p3 as int);
    }
    let p5 = match casar_literal(d, p4, ",\"tipo_mime\":\"") {
        Some(p) => p,
        None => {
            return None;
        },
    };
    let (mime_b, p6) = match analisar_texto(d, p5) {
        Some(x) => x,
        None => {
            return None;
        },
    };
    proof {
        lema_analisa_texto_limites(d@, p5 as int);
    }
    if !(p6 < d.len() && d[p6] == 125) {
        return None;
    }
    let nome_original = match bytes_para_texto(&nome_b) {
        Some(s) => s,
        None => {
            return None;
        },
    };
    let caminho_interno = match bytes_para_texto(&caminho_b) {
        Some(s) => s,
        None => {
            return None;
        },
    };
    let tipo_mime = match bytes_para_texto(&mime_b) {
        Some(s) => s,
        None => {
            return None;
        },
    };
    Some((AnexoPacote { nome_original, caminho_interno, tipo_mime }, p6 + 1))
}

/// Lê a lista de anexos a partir de `pos`, já decodificada.
#[verifier::rlimit(100)]
#[verifier::spinoff_prover]
fn analisar_lista_anexos(d: &Vec<u8>, pos: usize) -> (r: Option<(Vec<AnexoPacote>, usize)>)
    ensures
        r is Some <==> (analisa_lista_anexos(d@, pos as int) is Some && (forall|j: int|
            0 <= j < analisa_lista_anexos(d@, pos as int)->Some_0.0.len()
                ==> anexo_cru_valido(
                #[trigger] analisa_lista_anexos(d@, pos as int)->Some_0.0[j],
            ))),
        r is Some ==> {
            let (s, fim) = analisa_lista_anexos(d@, pos as int)->Some_0;
            vista_anexos_pacote(r->Some_0.0@) == crus_para_anexos(s) && r->Some_0.1 as int == fim
        },
    decreases d@.len() - pos,
{
    if pos >= d.len() {
        return None;
    }
    if d[pos] == 93 {
        let vazio: Vec<AnexoPacote> = Vec::new();
        proof {
            assert(vista_anexos_pacote(vazio@) =~= crus_para_anexos(Seq::empty()));
        }
        return Some((vazio, pos + 1));
    }
    let (anexo, p1) = match analisar_anexo_pacote(d, pos) {
        Some(x) => x,
        None => {
            proof {
                if analisa_lista_anexos(d@, pos as int) is Some {
                    let (s, fim) = analisa_lista_anexos(d@, pos as int)->Some_0;
                    assert(s[0] == analisa_anexo_pacote(d@, pos as int)->Some_0.0);
                    assert(!anexo_cru_valido(s[0]));
                }
            }
            return None;
        },
    };
    proof {
        lema_analisa_anexo_limites(d@, pos as int);
    }
    let ghost cru = analisa_anexo_pacote(d@, pos as int)->Some_0.0;
    if p1 < d.len() && d[p1] == 44 {
        match analisar_lista_anexos(d, p1 + 1) {
            Some((mut resto, p2)) => {
                let ghost antes = resto@;
                resto.insert(0, anexo);
                proof {
                    let (s, fim) = analisa_lista_anexos(d@, pos as int)->Some_0;
                    let srec = analisa_lista_anexos(d@, p1 + 1)->Some_0.0;
                    assert(s == seq![cru] + srec);
                    assert forall|j: int| 0 <= j < s.len() implies anexo_cru_valido(
                        #[trigger] s[j],
                    ) by {
                        if j > 0 {
                            assert(s[j] == srec[j - 1]);
                        }
                    }
                    let va = vista_anexos_pacote(resto@);
                    let vb = crus_para_anexos(s);
                    assert(vista_anexos_pacote(antes) == crus_para_anexos(srec));
                    assert(antes.len() == srec.len()) by {
                        assert(vista_anexos_pacote(antes).len() == antes.len());
                        assert(crus_para_anexos(srec).len() == srec.len());
                    }
                    assert forall|j: int| 0 <= j < va.len() implies #[trigger] va[j] == vb[j] by {
                        assert(va[j] == resto@[j]@);
                        assert(vb[j] == anexo_de_cru(s[j]));
                        if j == 0 {
                            assert(resto@[0] == anexo);
                            assert(s[0] == cru);
                        } else {
                            assert(resto@[j] == antes[j - 1]);
                            assert(s[j] == srec[j - 1]);
                            assert(vista_anexos_pacote(antes)[j - 1] == antes[j - 1]@);
                            assert(crus_para_anexos(srec)[j - 1] == anexo_de_cru(srec[j - 1]));
                        }
                    }
                    assert(va =~= vb);
                }
                Some((resto, p2))
            },
            None => {
                proof {
                    if analisa_lista_anexos(d@, pos as int) is Some {
                        let (s, fim) = analisa_lista_anexos(d@, pos as int)->Some_0;
                        let srec = analisa_lista_anexos(d@, p1 + 1)->Some_0.0;
                        assert(s == seq![cru] + srec);
                        if forall|j: int|
                            0 <= j < s.len() ==> anexo_cru_valido(#[trigger] s[j]) {
                            assert forall|j: int|
                                0 <= j < srec.len() implies anexo_cru_valido(
                                #[trigger] srec[j],
                            ) by {
                                assert(srec[j] == s[j + 1]);
                            }
                        }
                    }
                }
                None
            },
        }
    } else if p1 < d.len() && d[p1] == 93 {
        let mut um: Vec<AnexoPacote> = Vec::new();
        um.push(anexo);
        proof {
            let (s, fim) = analisa_lista_anexos(d@, pos as int)->Some_0;
            assert(s == seq![cru]);
            assert forall|j: int| 0 <= j < s.len() implies anexo_cru_valido(#[trigger] s[j]) by {
                assert(s[j] == cru);
            }
            assert(vista_anexos_pacote(um@) =~= crus_para_anexos(s)) by {
                assert(vista_anexos_pacote(um@)[0] == um@[0]@);
                assert(crus_para_anexos(s)[0] == anexo_de_cru(s[0]));
            }
        }
        Some((um, p1 + 1))
    } else {
        None
    }
}

/// Lê um item do documento a partir de `pos`, já decodificado.
#[verifier::rlimit(100)]
#[verifier::spinoff_prover]
fn analisar_item_pacote(d: &Vec<u8>, pos: usize) -> (r: Option<(ItemPacote, usize)>)
    ensures
        r is Some <==> (analisa_item_pacote(d@, pos as int) is Some && item_cru_valido(
            analisa_item_pacote(d@, pos as int)->Some_0.0,
        )),
        r is Some ==> {
            let (it, fim) = analisa_item_pacote(d@, pos as int)->Some_0;
            r->Some_0.0@ == item_de_cru(it) && r->Some_0.1 as int == fim
        },
{
    let p1 = match casar_literal(d, pos, "{\"tipo\":\"") {
        Some(p) => p,
        None => {
            return None;
        },
    };
    let (tipo_b, p2) = match analisar_texto(d, p1) {
        Some(x) => x,
        None => {
            return None;
        },
    };
    proof {
        lema_analisa_texto_limites(d@, p1 as int);
    }
    let p3 = match casar_literal(d, p2, ",\"titulo\":\"") {
        Some(p) => p,
        None => {
            return None;
        },
    };
    let (titulo_b, p4) = match analisar_texto(d, p3) {
        Some(x) => x,
        None => {
            return None;
        },
    };
    proof {
        lema_analisa_texto_limites(d@, p3 as int);
    }
    let p5 = match casar_literal(d, p4, ",\"descricao\":") {
        Some(p) => p,
        None => {
            return None;
        },
    };
    let (descricao, p6) = match analisar_opcional(d, p5) {
        Some(x) => x,
        None => {
            return None;
        },
    };
    let p7 = match casar_literal(d, p6, ",\"conteudo_nota\":") {
        Some(p) => p,
        None => {
            return None;
        },
    };
    let (conteudo_nota, p8) = match analisar_opcional(d, p7) {
        Some(x) => x,
        None => {
            return None;
        },
    };
    let p9 = match casar_literal(d, p8, ",\"data_vencimento\":") {
        Some(p) => p,
        None => {
            return None;
        },
    };
    let (data_vencimento, p10) = match analisar_opcional(d, p9) {
        Some(x) => x,
        None => {
            return None;
        },
    };
    let p11 = match casar_literal(d, p10, ",\"anexos\":[") {
        Some(p) => p,
        None => {
            return None;
        },
    };
    let (anexos, p12) = match analisar_lista_anexos(d, p11) {
        Some(x) => x,
        None => {
            return None;
        },
    };
    if !(p12 < d.len() && d[p12] == 125) {
        return None;
    }
    let texto_tipo = match bytes_para_texto(&tipo_b) {
        Some(s) => s,
        None => {
            return None;
        },
    };
    let titulo = match bytes_para_texto(&titulo_b) {
        Some(s) => s,
        None => {
            return None;
        },
    };
    let tipo = TipoItem::de_str(texto_tipo.as_str());
    let item = ItemPacote { tipo, titulo, descricao, conteudo_nota, data_vencimento, anexos };
    proof {
        let (cru, fim) = analisa_item_pacote(d@, pos as int)->Some_0;
        assert(item@.anexos =~= cru.anexos.map_values(|a: AnexoPacoteCru| anexo_de_cru(a)));
        assert(item@ == item_de_cru(cru));
    }
    Some((item, p12 + 1))
}

/// Lê a lista de itens a partir de `pos`, já decodificada.
#[verifier::rlimit(100)]
#[verifier::spinoff_prover]
fn analisar_lista_itens(d: &Vec<u8>, pos: usize) -> (r: Option<(Vec<ItemPacote>, usize)>)
    ensures
        r is Some <==> (analisa_lista_itens(d@, pos as int) is Some && (forall|j: int|
            0 <= j < analisa_lista_itens(d@, pos as int)->Some_0.0.len() ==> item_cru_valido(
                #[trigger] analisa_lista_itens(d@, pos as int)->Some_0.0[j],
            ))),
        r is Some ==> {
            let (s, fim) = analisa_lista_itens(d@, pos as int)->Some_0;
            vista_itens_pacote(r->Some_0.0@) == crus_para_itens(s) && r->Some_0.1 as int == fim
        },
    decreases d@.len() - pos,
{
    if pos >= d.len() {
        return None;
    }
    if d[pos] == 93 {
        let vazio: Vec<ItemPacote> = Vec::new();
        proof {
            assert(vista_itens_pacote(vazio@) =~= crus_para_itens(Seq::empty()));
        }
        return Some((vazio, pos + 1));
    }
    let (item, p1) = match analisar_item_pacote(d, pos) {
        Some(x) => x,
        None => {
            proof {
                if analisa_lista_itens(d@, pos as int) is Some {
                    let (s, fim) = analisa_lista_itens(d@, pos as int)->Some_0;
                    assert(s[0] == analisa_item_pacote(d@, pos as int)->Some_0.0);
                    assert(!item_cru_valido(s[0]));
                }
            }
            return None;
        },
    };
    proof {
        lema_analisa_item_limites(d@, pos as int);
    }
    let ghost cru = analisa_item_pacote(d@, pos as int)->Some_0.0;
    if p1 < d.len() && d[p1] == 44 {
        match analisar_lista_itens(d, p1 + 1) {
            Some((mut resto, p2)) => {
                let ghost antes = resto@;
                resto.insert(0, item);
                proof {
                    let (s, fim) = analisa_lista_itens(d@, pos as int)->Some_0;
                    let srec = analisa_lista_itens(d@, p1 + 1)->Some_0.0;
                    assert(s == seq![cru] + srec);
                    assert forall|j: int| 0 <= j < s.len() implies item_cru_valido(
                        #[trigger] s[j],
                    ) by {
                        if j > 0 {
                            assert(s[j] == srec[j - 1]);
                        }
                    }
                    let va = vista_itens_pacote(resto@);
                    let vb = crus_para_itens(s);
                    assert(vista_itens_pacote(antes) == crus_para_itens(srec));
                    assert(antes.len() == srec.len()) by {
                        assert(vista_itens_pacote(antes).len() == antes.len());
                        assert(crus_para_itens(srec).len() == srec.len());
                    }
                    assert forall|j: int| 0 <= j < va.len() implies #[trigger] va[j] == vb[j] by {
                        assert(va[j] == resto@[j]@);
                        assert(vb[j] == item_de_cru(s[j]));
                        if j == 0 {
                            assert(resto@[0] == item);
                            assert(s[0] == cru);
                        } else {
                            assert(resto@[j] == antes[j - 1]);
                            assert(s[j] == srec[j - 1]);
                            assert(vista_itens_pacote(antes)[j - 1] == antes[j - 1]@);
                            assert(crus_para_itens(srec)[j - 1] == item_de_cru(srec[j - 1]));
                        }
                    }
                    assert(va =~= vb);
                }
                Some((resto, p2))
            },
            None => {
                proof {
                    if analisa_lista_itens(d@, pos as int) is Some {
                        let (s, fim) = analisa_lista_itens(d@, pos as int)->Some_0;
                        let srec = analisa_lista_itens(d@, p1 + 1)->Some_0.0;
                        assert(s == seq![cru] + srec);
                        if forall|j: int| 0 <= j < s.len() ==> item_cru_valido(#[trigger] s[j]) {
                            assert forall|j: int|
                                0 <= j < srec.len() implies item_cru_valido(
                                #[trigger] srec[j],
                            ) by {
                                assert(srec[j] == s[j + 1]);
                            }
                        }
                    }
                }
                None
            },
        }
    } else if p1 < d.len() && d[p1] == 93 {
        let mut um: Vec<ItemPacote> = Vec::new();
        um.push(item);
        proof {
            let (s, fim) = analisa_lista_itens(d@, pos as int)->Some_0;
            assert(s == seq![cru]);
            assert forall|j: int| 0 <= j < s.len() implies item_cru_valido(#[trigger] s[j]) by {
                assert(s[j] == cru);
            }
            assert(vista_itens_pacote(um@) =~= crus_para_itens(s)) by {
                assert(vista_itens_pacote(um@)[0] == um@[0]@);
                assert(crus_para_itens(s)[0] == item_de_cru(s[0]));
            }
        }
        Some((um, p1 + 1))
    } else {
        None
    }
}

/// Lê um documento dos bytes de `dados.json`. Devolve `Formato` se os bytes
/// não são a escrita canônica inteira de um documento.
#[verifier::rlimit(100)]
#[verifier::spinoff_prover]
pub fn decodificar_documento(d: &Vec<u8>) -> (r: Result<DocumentoPacote, ErroBackup>)
    ensures
        r is Ok <==> analisa_documento(d@) is Some,
        r is Ok ==> r->Ok_0@ == analisa_documento(d@)->Some_0,
        r is Err ==> r->Err_0 == ErroBackup::Formato,
{
    let p1 = match casar_literal(d, 0, "{\"pasta\":{\"nome\":\"") {
        Some(p) => p,
        None => {
            return Err(ErroBackup::Formato);
        },
    };
    let (nome_b, p2) = match analisar_texto(d, p1) {
        Some(x) => x,
        None => {
            return Err(ErroBackup::Formato);
        },
    };
    proof {
        lema_analisa_texto_limites(d@, p1 as int);
    }
    let p3 = match casar_literal(d, p2, ",\"pasta_pai_id\":") {
        Some(p) => p,
        None => {
            return Err(ErroBackup::Formato);
        },
    };
    let (pasta_pai_id, p4) = match analisar_opcional(d, p3) {
        Some(x) => x,
        None => {
            return Err(ErroBackup::Formato);
        },
    };
    let p5 = match casar_literal(d, p4, "},\"itens\":[") {
        Some(p) => p,
        None => {
            return Err(ErroBackup::Formato);
        },
    };
    let (itens, p6) = match analisar_lista_itens(d, p5) {
        Some(x) => x,
        None => {
            return Err(ErroBackup::Formato);
        },
    };
    if !(p6 < d.len() && d.len() - p6 == 1 && d[p6] == 125) {
        return Err(ErroBackup::Formato);
    }
    let nome_pasta = match bytes_para_texto(&nome_b) {
        Some(s) => s,
        None => {
            return Err(ErroBackup::Formato);
        },
    };
    let doc = DocumentoPacote { nome_pasta, pasta_pai_id, itens };
    proof {
        let cru = analisa_documento_cru(d@)->Some_0;
        assert(doc@.itens =~= crus_para_itens(cru.itens)) by {
            assert(vista_itens_pacote(itens@) == crus_para_itens(cru.itens));
            assert forall|j: int| 0 <= j < itens@.len() implies #[trigger] doc@.itens[j]
                == crus_para_itens(cru.itens)[j] by {
                assert(doc@.itens[j] == itens@[j]@);
                assert(vista_itens_pacote(itens@)[j] == itens@[j]@);
            }
        }
        assert(analisa_documento(d@)->Some_0.itens == cru.itens.map_values(
            |it: ItemPacoteCru| item_de_cru(it),
        ));
        assert(doc@.itens =~= analisa_documento(d@)->Some_0.itens) by {
            assert forall|j: int| 0 <= j < doc@.itens.len() implies #[trigger] doc@.itens[j]
                == analisa_documento(d@)->Some_0.itens[j] by {
                assert(crus_para_itens(cru.itens)[j] == item_de_cru(cru.itens[j]));
                assert(cru.itens.map_values(|it: ItemPacoteCru| item_de_cru(it))[j]
                    == item_de_cru(cru.itens[j]));
            }
        }
        assert(doc@ == analisa_documento(d@)->Some_0);
    }
    Ok(doc)
}

// =============================================================================
// Exportação de pacote
// =============================================================================

/// O manifesto que um pacote de pasta grava: `hash_banco` vazio (a marca de
/// pacote), as contagens e o resumo de cada anexo.
pub open spec fn manifesto_do_pacote(
    anexos: Seq<(Seq<char>, Seq<u8>)>,
    versao_app: Seq<char>,
    versao_schema: int,
    data: Seq<char>,
    total_itens: int,
) -> ManifestoVista {
    ManifestoVista {
        versao_app,
        versao_schema,
        data,
        total_itens,
        total_anexos: anexos.len() as int,
        hash_banco: Seq::empty(),
        hashes_anexos: anexos.map_values(|p: (Seq<char>, Seq<u8>)| (p.0, hash_sha256_de(p.1))),
    }
}

/// Todas as entradas de um pacote, na ordem de escrita: o documento, os
/// anexos e, por último, o manifesto.
pub open spec fn entradas_do_pacote(
    doc: DocumentoPacoteVista,
    anexos: Seq<(Seq<char>, Seq<u8>)>,
    m: ManifestoVista,
) -> Seq<(Seq<char>, Seq<u8>)> {
    seq![("dados.json"@, codifica_documento(doc))] + entradas_de_anexos(anexos) + seq![
        ("manifesto.json"@, codifica_manifesto(m)),
    ]
}

/// O conteúdo de um arquivo de pacote: o mapa que uma exportação
/// bem-sucedida descreve.
pub open spec fn modelo_pacote(
    doc: DocumentoPacoteVista,
    anexos: Seq<(Seq<char>, Seq<u8>)>,
    m: ManifestoVista,
) -> Map<Seq<char>, Seq<u8>> {
    mapa_de_entradas(entradas_do_pacote(doc, anexos, m))
}

/// Os nomes das entradas de um pacote não se repetem quando os caminhos dos
/// anexos não se repetem.
pub proof fn lema_entradas_do_pacote_unicas(
    doc: DocumentoPacoteVista,
    anexos: Seq<(Seq<char>, Seq<u8>)>,
    m: ManifestoVista,
)
    requires
        caminhos_unicos(anexos),
    ensures
        nomes_unicos(entradas_do_pacote(doc, anexos, m)),
        "dados.json"@ != "manifesto.json"@,
        forall|p: Seq<char>| #[trigger] nome_entrada_anexo(p) != "dados.json"@,
{
    reveal_strlit("dados.json");
    reveal_strlit("manifesto.json");
    reveal_strlit("anexos/");
    assert("dados.json"@[0] == 'd');
    assert("manifesto.json"@[0] == 'm');
    assert forall|p: Seq<char>| #[trigger] nome_entrada_anexo(p) != "dados.json"@ by {
        assert(nome_entrada_anexo(p)[0] == 'a');
    }
    let es = entradas_do_pacote(doc, anexos, m);
    let n = anexos.len() as int;
    assert(es.len() == n + 2);
    assert(es[0].0 == "dados.json"@);
    assert(es[n + 1].0 == "manifesto.json"@);
    assert(forall|i: int|
        0 <= i < n ==> (#[trigger] es[i + 1]).0 == nome_entrada_anexo(anexos[i].0));
    assert forall|i: int, j: int| 0 <= i < j < es.len() implies (#[trigger] es[i]).0 != (
    #[trigger] es[j]).0 by {
        if i == 0 && j < n + 1 {
            assert(es[j].0 == nome_entrada_anexo(anexos[j - 1].0));
        } else if 0 < i && j == n + 1 {
            assert(es[i].0 == nome_entrada_anexo(anexos[i - 1].0));
            lema_nomes_de_entrada_distintos(anexos[i - 1].0, Seq::empty());
        } else if 0 < i && j < n + 1 {
            assert(es[i].0 == nome_entrada_anexo(anexos[i - 1].0));
            assert(es[j].0 == nome_entrada_anexo(anexos[j - 1].0));
            assert(anexos[i - 1].0 != anexos[j - 1].0);
            lema_nomes_de_entrada_distintos(anexos[i - 1].0, anexos[j - 1].0);
        }
    }
}

/// Constrói o documento de exportação de uma pasta e seus itens.
fn documento_para_exportacao(pasta: &Pasta, itens: &Vec<Item>) -> (d: DocumentoPacote)
    ensures
        d@ == documento_da_pasta(*pasta, itens@),
{
    let pasta_pai_id = match &pasta.pasta_pai_id {
        None => None,
        Some(s) => Some(s.clone()),
    };
    let mut itens_doc: Vec<ItemPacote> = Vec::new();
    let mut i: usize = 0;
    while i < itens.len()
        invariant
            i <= itens@.len(),
            itens_doc@.len() == i,
            forall|j: int| 0 <= j < i ==> (#[trigger] itens_doc@[j])@ == item_pacote_de(
                itens@[j]@,
            ),
        decreases itens@.len() - i,
    {
        let mut anexos_doc: Vec<AnexoPacote> = Vec::new();
        let mut k: usize = 0;
        while k < itens[i].anexos.len()
            invariant
                i < itens@.len(),
                k <= itens@[i as int].anexos@.len(),
                anexos_doc@.len() == k,
                forall|j: int| 0 <= j < k ==> (#[trigger] anexos_doc@[j])@ == anexo_pacote_de(
                    itens@[i as int].anexos@[j]@,
                ),
            decreases itens@[i as int].anexos@.len() - k,
        {
            anexos_doc.push(
                AnexoPacote {
                    nome_original: itens[i].anexos[k].nome_original.clone(),
                    caminho_interno: itens[i].anexos[k].caminho_interno.clone(),
                    tipo_mime: itens[i].anexos[k].tipo_mime.clone(),
                },
            );
            k += 1;
        }
        let item_doc = ItemPacote {
            tipo: itens[i].tipo,
            titulo: itens[i].titulo.clone(),
            descricao: match &itens[i].descricao {
                None => None,
                Some(s) => Some(s.clone()),
            },
            conteudo_nota: match &itens[i].conteudo_nota {
                None => None,
                Some(s) => Some(s.clone()),
            },
            data_vencimento: match &itens[i].data_vencimento {
                None => None,
                Some(s) => Some(s.clone()),
            },
            anexos: anexos_doc,
        };
        proof {
            assert(item_doc@.anexos =~= item_pacote_de(itens@[i as int]@).anexos) by {
                assert forall|j: int|
                    0 <= j < item_doc@.anexos.len() implies #[trigger] item_doc@.anexos[j]
                    == item_pacote_de(itens@[i as int]@).anexos[j] by {
                    assert(item_doc@.anexos[j] == item_doc.anexos@[j]@);
                    assert(item_pacote_de(itens@[i as int]@).anexos[j] == anexo_pacote_de(
                        itens@[i as int]@.anexos[j],
                    ));
                    assert(itens@[i as int]@.anexos[j] == itens@[i as int].anexos@[j]@);
                }
            }
            assert(item_doc@ == item_pacote_de(itens@[i as int]@));
        }
        itens_doc.push(item_doc);
        i += 1;
    }
    let d = DocumentoPacote { nome_pasta: pasta.nome.clone(), pasta_pai_id, itens: itens_doc };
    proof {
        assert(d@.itens =~= documento_da_pasta(*pasta, itens@).itens) by {
            assert forall|j: int| 0 <= j < d@.itens.len() implies #[trigger] d@.itens[j]
                == documento_da_pasta(*pasta, itens@).itens[j] by {
                assert(d@.itens[j] == itens_doc@[j]@);
                assert(documento_da_pasta(*pasta, itens@).itens[j] == item_pacote_de(
                    itens@[j]@,
                ));
            }
        }
        assert(d@ == documento_da_pasta(*pasta, itens@));
    }
    d
}

/// Monta os bytes de um arquivo `.vaultbackup` de pacote de pasta.
///
/// Recebe a pasta, o conjunto completo de itens que o colaborador de
/// consultas entregou para ela e os anexos presentes no disco (cada caminho
/// interno com seus bytes, sem repetição). Grava `dados.json` com o documento
/// da pasta, cada anexo sob `anexos/` e, por último, o manifesto do pacote,
/// com `hash_banco` vazio. Em caso de sucesso os bytes formam um arquivo cujo
/// conteúdo é exatamente o modelo `modelo_pacote` e cuja lista de nomes é a
/// das entradas, na ordem de escrita; toda falha é de escrita no contêiner
/// (`Es`). O sucesso é devido: com caminhos sem repetição e entradas que
/// cabem nos campos do formato, o resultado é `Ok`.
#[verifier::rlimit(100)]
#[verifier::spinoff_prover]
pub fn exportar_pacote_pasta(
    pasta: &Pasta,
    itens: &Vec<Item>,
    anexos: &Vec<(String, Vec<u8>)>,
    versao_app: &str,
    versao_schema: i32,
    data: &str,
) -> (r: Result<Vec<u8>, ErroBackup>)
    requires
        0 <= versao_schema,
        itens@.len() <= i64::MAX,
        anexos@.len() <= i64::MAX,
    ensures
        r is Ok ==> caminhos_unicos(vista_anexos(anexos@)) && analise_zip(r->Ok_0@) == Some(
            modelo_pacote(
                documento_da_pasta(*pasta, itens@),
                vista_anexos(anexos@),
                manifesto_do_pacote(
                    vista_anexos(anexos@),
                    versao_app@,
                    versao_schema as int,
                    data@,
                    itens@.len() as int,
                ),
            ),
        ),
        r is Err ==> r->Err_0 is Es,
        ({
            let es = entradas_do_pacote(
                documento_da_pasta(*pasta, itens@),
                vista_anexos(anexos@),
                manifesto_do_pacote(
                    vista_anexos(anexos@),
                    versao_app@,
                    versao_schema as int,
                    data@,
                    itens@.len() as int,
                ),
            );
            &&& (r is Ok ==> analise_nomes(r->Ok_0@) == nomes_de_entradas(es))
            &&& ((caminhos_unicos(vista_anexos(anexos@)) && entradas_cabem(es)) ==> r is Ok)
        }),
{
    let ghost va = vista_anexos(anexos@);
    let ghost doc_vista = documento_da_pasta(*pasta, itens@);
    let ghost m = manifesto_do_pacote(
        va,
        versao_app@,
        versao_schema as int,
        data@,
        itens@.len() as int,
    );
    let ghost es = entradas_do_pacote(doc_vista, va, m);
    if caminhos_repetidos(anexos) {
        return Err(ErroBackup::Es);
    }
    proof {
        lema_entradas_do_pacote_unicas(doc_vista, va, m);
        assert(es[0] == ("dados.json"@, codifica_documento(doc_vista)));
    }
    let documento = documento_para_exportacao(pasta, itens);
    let bytes_documento = codificar_documento(&documento);
    let mut escritor = novo_escritor();
    let ghost gravadas = entradas_escritas(escritor);
    if escrever_entrada(&mut escritor, "dados.json", bytes_documento.as_slice()).is_err() {
        proof {
            if entradas_cabem(es) {
                lema_escrita_cabe(es, 0);
                assert(gravadas =~= es.take(0));
                assert(gravadas.push(("dados.json"@, bytes_documento@)) =~= es.take(1));
                assert(false);
            }
        }
        return Err(ErroBackup::Es);
    }
    proof {
        assert(entradas_escritas(escritor) =~= seq![("dados.json"@, codifica_documento(doc_vista))]);
    }
    let mut hashes: Vec<(String, String)> = Vec::new();
    let mut i: usize = 0;
    while i < anexos.len()
        invariant
            i <= anexos@.len(),
            va == vista_anexos(anexos@),
            doc_vista == documento_da_pasta(*pasta, itens@),
            m == manifesto_do_pacote(
                va,
                versao_app@,
                versao_schema as int,
                data@,
                itens@.len() as int,
            ),
            es == entradas_do_pacote(doc_vista, va, m),
            caminhos_unicos(va),
            nomes_unicos(es),
            entradas_escritas(escritor) == seq![("dados.json"@, codifica_documento(doc_vista))]
                + entradas_de_anexos(va.take(i as int)),
            hashes@.len() == i,
            forall|j: int|
                0 <= j < i ==> (#[trigger] hashes@[j]).0@ == va[j].0 && hashes@[j].1@
                    == hash_sha256_de(va[j].1),
        decreases anexos@.len() - i,
    {
        let nome = concatenar("anexos/", anexos[i].0.as_str());
        let resumo = calcular_hash_bytes(anexos[i].1.as_slice());
        let ghost gravadas = entradas_escritas(escritor);
        proof {
            assert(es.len() == va.len() + 2);
            assert(es[i + 1] == entradas_de_anexos(va)[i as int]);
            assert(entradas_de_anexos(va)[i as int] == (
                nome_entrada_anexo(va[i as int].0),
                va[i as int].1,
            ));
            assert(gravadas =~= es.take(i + 1)) by {
                assert forall|j: int| 0 <= j < i + 1 implies #[trigger] gravadas[j] == es.take(
                    i + 1,
                )[j] by {
                    if j > 0 {
                        assert(gravadas[j] == entradas_de_anexos(va.take(i as int))[j - 1]);
                        assert(entradas_de_anexos(va.take(i as int))[j - 1] == (
                            nome_entrada_anexo(va.take(i as int)[j - 1].0),
                            va.take(i as int)[j - 1].1,
                        ));
                        assert(es[j] == entradas_de_anexos(va)[j - 1]);
                        assert(entradas_de_anexos(va)[j - 1] == (
                            nome_entrada_anexo(va[j - 1].0),
                            va[j - 1].1,
                        ));
                    }
                }
            }
        }
        if escrever_entrada(&mut escritor, nome.as_str(), anexos[i].1.as_slice()).is_err() {
            proof {
                if entradas_cabem(es) {
                    lema_escrita_cabe(es, i + 1);
                    assert(nome@ == es[i + 1].0);
                    assert(anexos@[i as int].1@ == es[i + 1].1);
                    assert(gravadas.push((nome@, anexos@[i as int].1@)) =~= es.take(i + 2)) by {
                        assert forall|j: int|
                            0 <= j < i + 2 implies #[trigger] gravadas.push(
                            (nome@, anexos@[i as int].1@),
                        )[j] == es.take(i + 2)[j] by {
                            if j < i + 1 {
                                assert(gravadas[j] == es.take(i + 1)[j]);
                            }
                        }
                    }
                    assert(false);
                }
            }
            return Err(ErroBackup::Es);
        }
        let caminho = anexos[i].0.clone();
        hashes.push((caminho, resumo));
        proof {
            assert(entradas_de_anexos(va.take(i + 1)) =~= entradas_de_anexos(va.take(i as int))
                + seq![(nome_entrada_anexo(va[i as int].0), va[i as int].1)]);
            assert(entradas_escritas(escritor) =~= seq![
                ("dados.json"@, codifica_documento(doc_vista)),
            ] + entradas_de_anexos(va.take(i + 1)));
        }
        i += 1;
    }
    let manifesto = ManifestoBackup {
        versao_app: versao_app.to_owned(),
        versao_schema,
        data: data.to_owned(),
        total_itens: itens.len() as i64,
        total_anexos: anexos.len() as i64,
        hash_banco: String::new(),
        hashes_anexos: hashes,
    };
    proof {
        assert(manifesto@.hashes_anexos =~= m.hashes_anexos);
        assert(manifesto@.hash_banco =~= m.hash_banco);
        assert(manifesto@ == m);
    }
    let bytes_manifesto = codificar_manifesto(&manifesto);
    let ghost gravadas = entradas_escritas(escritor);
    let ghost t = va.len() as int + 1;
    proof {
        assert(va.take(va.len() as int) =~= va);
        assert(es.len() == va.len() + 2);
        assert(es[t] == ("manifesto.json"@, codifica_manifesto(m)));
        assert(gravadas =~= es.take(t)) by {
            assert forall|j: int| 0 <= j < t implies #[trigger] gravadas[j] == es.take(t)[j] by {
                if j > 0 {
                    assert(gravadas[j] == entradas_de_anexos(va)[j - 1]);
                    assert(es[j] == entradas_de_anexos(va)[j - 1]);
                }
            }
        }
    }
    if escrever_entrada(&mut escritor, "manifesto.json", bytes_manifesto.as_slice()).is_err() {
        proof {
            if entradas_cabem(es) {
                lema_escrita_cabe(es, t);
                assert(gravadas.push(("manifesto.json"@, bytes_manifesto@)) =~= es.take(t + 1));
                assert(false);
            }
        }
        return Err(ErroBackup::Es);
    }
    proof {
        assert(entradas_escritas(escritor) =~= es);
    }
    match finalizar_escritor(escritor) {
        Ok(bytes) => Ok(bytes),
        Err(_) => {
            proof {
                if entradas_cabem(es) {
                    assert(false);
                }
            }
            Err(ErroBackup::Es)
        },
    }
}

/// Limpa o nome de uma pasta para uso em nome de arquivo: todo caractere que
/// não é alfanumérico, sublinhado ou hífen vira sublinhado.
pub open spec fn limpa_nome(s: Seq<char>) -> Seq<char> {
    s.map_values(
        |c: char|
            if crate::texto::alfanumerico(c) || c == '_' || c == '-' {
                c
            } else {
                '_'
            },
    )
}

/// Limpa o nome de uma pasta para uso em nome de arquivo.
pub fn limpar_nome(nome: &str) -> (r: String)
    ensures
        r@ == limpa_nome(nome@),
{
    let n = nome.unicode_len();
    let mut r = String::new();
    let mut i: usize = 0;
    while i < n
        invariant
            i <= n,
            n == nome@.len(),
            r@ == limpa_nome(nome@).take(i as int),
        decreases n - i,
    {
        let c = nome.get_char(i);
        let limpo = if crate::texto::eh_alfanumerico(c) || c == '_' || c == '-' {
            c
        } else {
            '_'
        };
        crate::texto::texto_poe_char(&mut r, limpo);
        proof {
            assert(r@ =~= limpa_nome(nome@).take(i + 1));
        }
        i += 1;
    }
    proof {
        assert(limpa_nome(nome@).take(n as int) =~= limpa_nome(nome@));
    }
    r
}

/// O nome do arquivo de um pacote, derivado do nome limpo da pasta e do
/// instante da criação.
pub fn nome_arquivo_pacote(nome_pasta: &str, agora: &str) -> (r: String)
    ensures
        r@ == "vaultcraft_pacote_"@ + limpa_nome(nome_pasta@) + "_"@ + agora@ + ".vaultbackup"@,
{
    let limpo = limpar_nome(nome_pasta);
    let mut r = concatenar("vaultcraft_pacote_", limpo.as_str());
    r.append("_");
    r.append(agora);
    r.append(".vaultbackup");
    r
}

// =============================================================================
// Importação de pacote
// =============================================================================

/// Um anexo extraído de um pacote na importação: os metadados do documento,
/// os bytes extraídos e o resumo desses bytes, pronto para ganhar identidade
/// e caminho novos no cofre de destino.
pub struct AnexoImportado {
    pub nome_original: String,
    pub tipo_mime: String,
    pub caminho_interno_original: String,
    pub dados: Vec<u8>,
    pub hash_sha256: String,
}

pub ghost struct AnexoImportadoVista {
    pub nome_original: Seq<char>,
    pub tipo_mime: Seq<char>,
    pub caminho_interno_original: Seq<char>,
    pub dados: Seq<u8>,
    pub hash_sha256: Seq<char>,
}

impl View for AnexoImportado {
    type V = AnexoImportadoVista;

    open spec fn view(&self) -> AnexoImportadoVista {
        AnexoImportadoVista {
            nome_original: self.nome_original@,
            tipo_mime: self.tipo_mime@,
            caminho_interno_original: self.caminho_interno_original@,
            dados: self.dados@,
            hash_sha256: self.hash_sha256@,
        }
    }
}

/// Um item a criar na importação, sem identidade alguma: os ids do item, da
/// pasta e dos anexos são atribuídos pelo cofre de destino.
pub struct ItemImportado {
    pub tipo: TipoItem,
    pub titulo: String,
    pub descricao: Option<String>,
    pub conteudo_nota: Option<String>,
    pub data_vencimento: Option<String>,
    pub anexos: Vec<AnexoImportado>,
}

pub ghost struct ItemImportadoVista {
    pub tipo: TipoItem,
    pub titulo: Seq<char>,
    pub descricao: Option<Seq<char>>,
    pub conteudo_nota: Option<Seq<char>>,
    pub data_vencimento: Option<Seq<char>>,
    pub anexos: Seq<AnexoImportadoVista>,
}

impl View for ItemImportado {
    type V = ItemImportadoVista;

    open spec fn view(&self) -> ItemImportadoVista {
        ItemImportadoVista {
            tipo: self.tipo,
            titulo: self.titulo@,
            descricao: vista_opcao(self.descricao),
            conteudo_nota: vista_opcao(self.conteudo_nota),
            data_vencimento: vista_opcao(self.data_vencimento),
            anexos: self.anexos@.map_values(|a: AnexoImportado| a@),
        }
    }
}

/// O plano validado de uma importação: a pasta nova a criar (com o nome
/// marcado) e os itens a criar dentro dela. Nada do cofre foi tocado; aplicar
/// o plano (criar a pasta, os itens e os anexos, com identidades novas) fica
/// com o chamador.
pub struct PlanoImportacao {
    pub pasta: NovaPasta,
    pub itens: Vec<ItemImportado>,
}

/// A validação de um pacote antes de qualquer criação: o manifesto presente e
/// legível, o esquema não mais novo que o suportado e o documento `dados.json`
/// presente e legível.
pub open spec fn validacao_pacote(
    conteudo: Map<Seq<char>, Seq<u8>>,
    versao_suportada: int,
) -> Result<(ManifestoVista, DocumentoPacoteVista), ErroBackup> {
    if !conteudo.contains_key("manifesto.json"@) {
        Err(ErroBackup::Formato)
    } else {
        match crate::manifesto::analisa_manifesto(conteudo["manifesto.json"@]) {
            None => Err(ErroBackup::Formato),
            Some(m) => {
                if m.versao_schema > versao_suportada {
                    Err(
                        ErroBackup::VersaoIncompativel {
                            encontrada: m.versao_schema as i32,
                            suportada: versao_suportada as i32,
                        },
                    )
                } else if !conteudo.contains_key("dados.json"@) {
                    Err(ErroBackup::Formato)
                } else {
                    match analisa_documento(conteudo["dados.json"@]) {
                        None => Err(ErroBackup::Formato),
                        Some(doc) => Ok((m, doc)),
                    }
                }
            },
        }
    }
}

/// Os anexos que a importação extrai para um item: dos metadados do
/// documento, os que têm caminho não vazio e entrada extraível no arquivo,
/// na ordem do documento; os demais são pulados, sem impedir o item.
pub open spec fn anexos_importados(
    conteudo: Map<Seq<char>, Seq<u8>>,
    s: Seq<AnexoPacoteVista>,
) -> Seq<AnexoImportadoVista>
    decreases s.len(),
{
    if s.len() == 0 {
        Seq::empty()
    } else {
        let resto = anexos_importados(conteudo, s.drop_first());
        let a = s[0];
        if a.caminho_interno.len() > 0 && conteudo.contains_key(
            nome_entrada_anexo(a.caminho_interno),
        ) {
            seq![
                AnexoImportadoVista {
                    nome_original: a.nome_original,
                    tipo_mime: a.tipo_mime,
                    caminho_interno_original: a.caminho_interno,
                    dados: conteudo[nome_entrada_anexo(a.caminho_interno)],
                    hash_sha256: hash_sha256_de(conteudo[nome_entrada_anexo(a.caminho_interno)]),
                },
            ] + resto
        } else {
            resto
        }
    }
}

/// A extração de anexos distribui sobre a concatenação das listas.
pub proof fn lema_anexos_importados_concat(
    conteudo: Map<Seq<char>, Seq<u8>>,
    a: Seq<AnexoPacoteVista>,
    b: Seq<AnexoPacoteVista>,
)
    ensures
        anexos_importados(conteudo, a + b) == anexos_importados(conteudo, a) + anexos_importados(
            conteudo,
            b,
        ),
    decreases a.len(),
{
    if a.len() == 0 {
        assert(a + b =~= b);
        assert(anexos_importados(conteudo, a) + anexos_importados(conteudo, b)
            =~= anexos_importados(conteudo, b));
    } else {
        assert((a + b)[0] == a[0]);
        assert((a + b).drop_first() =~= a.drop_first() + b);
        lema_anexos_importados_concat(conteudo, a.drop_first(), b);
        assert(anexos_importados(conteudo, a + b) =~= anexos_importados(conteudo, a)
            + anexos_importados(conteudo, b));
    }
}

/// O item que a importação cria a partir de um item do documento.
pub open spec fn item_importado_de(
    conteudo: Map<Seq<char>, Seq<u8>>,
    it: ItemPacoteVista,
) -> ItemImportadoVista {
    ItemImportadoVista {
        tipo: it.tipo,
        titulo: it.titulo,
        descricao: it.descricao,
        conteudo_nota: it.conteudo_nota,
        data_vencimento: it.data_vencimento,
        anexos: anexos_importados(conteudo, it.anexos),
    }
}

/// A vista de uma lista executável de itens importados.
pub open spec fn vista_importados(s: Seq<ItemImportado>) -> Seq<ItemImportadoVista> {
    s.map_values(|it: ItemImportado| it@)
}

/// Os itens que a importação cria a partir do documento.
pub open spec fn itens_importados_de(
    conteudo: Map<Seq<char>, Seq<u8>>,
    itens: Seq<ItemPacoteVista>,
) -> Seq<ItemImportadoVista> {
    itens.map_values(|it: ItemPacoteVista| item_importado_de(conteudo, it))
}

/// Extrai os anexos de um item do documento.
#[verifier::rlimit(100)]
#[verifier::spinoff_prover]
fn extrair_anexos_do_item(
    arq: &mut zip::read::ZipArchive<std::io::Cursor<Vec<u8>>>,
    anexos: &Vec<AnexoPacote>,
) -> (r: Vec<AnexoImportado>)
    ensures
        conteudo_zip(*final(arq)) == conteudo_zip(*old(arq)),
        nomes_zip(*final(arq)) == nomes_zip(*old(arq)),
        vista_importados_anexos(r@) == anexos_importados(
            conteudo_zip(*old(arq)),
            vista_anexos_pacote(anexos@),
        ),
{
    let ghost conteudo = conteudo_zip(*arq);
    let mut extraidos: Vec<AnexoImportado> = Vec::new();
    let mut k: usize = 0;
    while k < anexos.len()
        invariant
            k <= anexos@.len(),
            conteudo_zip(*arq) == conteudo,
            nomes_zip(*arq) == nomes_zip(*old(arq)),
            conteudo == conteudo_zip(*old(arq)),
            vista_importados_anexos(extraidos@) == anexos_importados(
                conteudo,
                vista_anexos_pacote(anexos@.take(k as int)),
            ),
        decreases anexos@.len() - k,
    {
        let ghost vk = vista_anexos_pacote(anexos@.take(k as int));
        let ghost velem = vista_anexos_pacote(seq![anexos@[k as int]]);
        proof {
            assert(vista_anexos_pacote(anexos@.take(k + 1)) =~= vk + velem) by {
                assert(anexos@.take(k + 1) =~= anexos@.take(k as int) + seq![anexos@[k as int]]);
                assert forall|j: int|
                    0 <= j < k + 1 implies #[trigger] vista_anexos_pacote(anexos@.take(k + 1))[j]
                    == (vk + velem)[j] by {
                    assert(vista_anexos_pacote(anexos@.take(k + 1))[j] == anexos@.take(k + 1)[j]@);
                    if j < k {
                        assert(vk[j] == anexos@.take(k as int)[j]@);
                    } else {
                        assert(velem[0] == seq![anexos@[k as int]][0]@);
                    }
                }
            }
            lema_anexos_importados_concat(conteudo, vk, velem);
            assert(velem[0] == anexos@[k as int]@);
            assert(velem.drop_first() =~= Seq::<AnexoPacoteVista>::empty());
            assert(anexos_importados(conteudo, Seq::<AnexoPacoteVista>::empty()) =~= Seq::<
                AnexoImportadoVista,
            >::empty());
        }
        let caminho = &anexos[k].caminho_interno;
        if caminho.unicode_len() > 0 {
            let nome = concatenar("anexos/", caminho.as_str());
            proof {
                assert(nome@ == nome_entrada_anexo(anexos@[k as int]@.caminho_interno));
            }
            match ler_entrada(arq, nome.as_str()) {
                Ok(dados) => {
                    let resumo = calcular_hash_bytes(dados.as_slice());
                    let ghost antes = extraidos@;
                    extraidos.push(
                        AnexoImportado {
                            nome_original: anexos[k].nome_original.clone(),
                            tipo_mime: anexos[k].tipo_mime.clone(),
                            caminho_interno_original: anexos[k].caminho_interno.clone(),
                            dados,
                            hash_sha256: resumo,
                        },
                    );
                    proof {
                        assert(vista_importados_anexos(extraidos@) =~= anexos_importados(
                            conteudo,
                            vista_anexos_pacote(anexos@.take(k + 1)),
                        )) by {
                            let alvo = anexos_importados(
                                conteudo,
                                vista_anexos_pacote(anexos@.take(k + 1)),
                            );
                            assert(alvo == vista_importados_anexos(antes) + anexos_importados(
                                conteudo,
                                velem,
                            ));
                            assert(anexos_importados(conteudo, velem) =~= seq![
                                extraidos@[antes.len() as int]@,
                            ]);
                            assert forall|j: int|
                                0 <= j < extraidos@.len() implies #[trigger] vista_importados_anexos(
                                extraidos@,
                            )[j] == alvo[j] by {
                                assert(vista_importados_anexos(extraidos@)[j] == extraidos@[j]@);
                                if j < antes.len() {
                                    assert(vista_importados_anexos(antes)[j] == antes[j]@);
                                }
                            }
                        }
                    }
                },
                Err(_) => {
                    proof {
                        assert(anexos_importados(conteudo, velem) =~= Seq::<
                            AnexoImportadoVista,
                        >::empty());
                        assert(vista_importados_anexos(extraidos@) =~= anexos_importados(
                            conteudo,
                            vista_anexos_pacote(anexos@.take(k + 1)),
                        ));
                    }
                },
            }
        } else {
            proof {
                assert(anexos_importados(conteudo, velem) =~= Seq::<AnexoImportadoVista>::empty());
                assert(vista_importados_anexos(extraidos@) =~= anexos_importados(
                    conteudo,
                    vista_anexos_pacote(anexos@.take(k + 1)),
                ));
            }
        }
        k += 1;
    }
    proof {
        assert(anexos@.take(anexos@.len() as int) =~= anexos@);
    }
    extraidos
}

/// A vista de uma lista executável de anexos importados.
pub open spec fn vista_importados_anexos(s: Seq<AnexoImportado>) -> Seq<AnexoImportadoVista> {
    s.map_values(|a: AnexoImportado| a@)
}

/// Valida e extrai um pacote de pasta, sem tocar nada do cofre.
///
/// A ordem é a da importação segura: abre o contêiner (`Formato`), lê e
/// decodifica o manifesto (`Formato`), recusa um esquema mais novo que o
/// suportado (`VersaoIncompativel`) e lê e decodifica `dados.json`
/// (`Formato`). Devolve o plano: a pasta nova, de nome marcado com
/// ` (importado)`, e os itens a criar, cada um com os anexos extraíveis do
/// arquivo; um anexo sem caminho ou sem entrada legível é pulado sem impedir
/// o item. O plano não carrega identidade alguma do pacote: ids novos são
/// atribuídos pelo cofre de destino na aplicação do plano, de modo que duas
/// importações do mesmo pacote criam duas pastas distintas e itens e anexos
/// com identidades novas.
#[verifier::rlimit(100)]
#[verifier::spinoff_prover]
pub fn importar_pacote(arquivo: &Vec<u8>, versao_suportada: i32) -> (r: Result<
    PlanoImportacao,
    ErroBackup,
>)
    ensures
        (r is Ok) == (analise_zip(arquivo@) is Some && validacao_pacote(
            analise_zip(arquivo@)->Some_0,
            versao_suportada as int,
        ) is Ok),
        r is Err ==> (analise_zip(arquivo@) is None && r->Err_0 == ErroBackup::Formato) || (
        analise_zip(arquivo@) is Some && validacao_pacote(
            analise_zip(arquivo@)->Some_0,
            versao_suportada as int,
        ) == Err::<(ManifestoVista, DocumentoPacoteVista), ErroBackup>(r->Err_0)),
        r is Ok ==> {
            let conteudo = analise_zip(arquivo@)->Some_0;
            let (m, doc) = validacao_pacote(conteudo, versao_suportada as int)->Ok_0;
            let plano = r->Ok_0;
            &&& plano.pasta@.nome == doc.nome_pasta + " (importado)"@
            &&& plano.pasta@.pasta_pai_id == doc.pasta_pai_id
            &&& vista_importados(plano.itens@) == itens_importados_de(conteudo, doc.itens)
        },
{
    let mut arq = match crate::arquivo_zip::abrir_arquivo(arquivo) {
        Ok(a) => a,
        Err(_) => {
            return Err(ErroBackup::Formato);
        },
    };
    let ghost conteudo = conteudo_zip(arq);
    let bytes_manifesto = match ler_entrada(&mut arq, "manifesto.json") {
        Ok(b) => b,
        Err(_) => {
            return Err(ErroBackup::Formato);
        },
    };
    let manifesto = match crate::manifesto::decodificar_manifesto(&bytes_manifesto) {
        Ok(m) => m,
        Err(_) => {
            return Err(ErroBackup::Formato);
        },
    };
    if manifesto.versao_schema > versao_suportada {
        return Err(
            ErroBackup::VersaoIncompativel {
                encontrada: manifesto.versao_schema,
                suportada: versao_suportada,
            },
        );
    }
    let bytes_documento = match ler_entrada(&mut arq, "dados.json") {
        Ok(b) => b,
        Err(_) => {
            return Err(ErroBackup::Formato);
        },
    };
    let documento = match decodificar_documento(&bytes_documento) {
        Ok(d) => d,
        Err(_) => {
            return Err(ErroBackup::Formato);
        },
    };
    let ghost doc = documento@;
    let nome_marcado = concatenar(documento.nome_pasta.as_str(), " (importado)");
    let pasta = NovaPasta { nome: nome_marcado, pasta_pai_id: documento.pasta_pai_id };
    let mut itens: Vec<ItemImportado> = Vec::new();
    let mut i: usize = 0;
    while i < documento.itens.len()
        invariant
            i <= documento.itens@.len(),
            conteudo_zip(arq) == conteudo,
            doc == documento@,
            itens@.len() == i,
            forall|j: int| 0 <= j < i ==> (#[trigger] itens@[j])@ == item_importado_de(
                conteudo,
                doc.itens[j],
            ),
        decreases documento.itens@.len() - i,
    {
        let anexos = extrair_anexos_do_item(&mut arq, &documento.itens[i].anexos);
        let item = ItemImportado {
            tipo: documento.itens[i].tipo,
            titulo: documento.itens[i].titulo.clone(),
            descricao: match &documento.itens[i].descricao {
                None => None,
                Some(s) => Some(s.clone()),
            },
            conteudo_nota: match &documento.itens[i].conteudo_nota {
                None => None,
                Some(s) => Some(s.clone()),
            },
            data_vencimento: match &documento.itens[i].data_vencimento {
                None => None,
                Some(s) => Some(s.clone()),
            },
            anexos,
        };
        proof {
            assert(doc.itens[i as int] == documento.itens@[i as int]@);
            assert(item@.anexos =~= item_importado_de(conteudo, doc.itens[i as int]).anexos) by {
                assert(vista_importados_anexos(item.anexos@) == anexos_importados(
                    conteudo,
                    vista_anexos_pacote(documento.itens@[i as int].anexos@),
                ));
                assert(vista_anexos_pacote(documento.itens@[i as int].anexos@)
                    =~= doc.itens[i as int].anexos) by {
                    assert forall|j: int|
                        0 <= j < doc.itens[i as int].anexos.len()
                            implies #[trigger] vista_anexos_pacote(
                        documento.itens@[i as int].anexos@,
                    )[j] == doc.itens[i as int].anexos[j] by {
                        assert(vista_anexos_pacote(documento.itens@[i as int].anexos@)[j]
                            == documento.itens@[i as int].anexos@[j]@);
                    }
                }
                assert forall|j: int| 0 <= j < item@.anexos.len() implies #[trigger] item@.anexos[j]
                    == vista_importados_anexos(item.anexos@)[j] by {
                    assert(item@.anexos[j] == item.anexos@[j]@);
                }
            }
            assert(item@ == item_importado_de(conteudo, doc.itens[i as int]));
        }
        itens.push(item);
        i += 1;
    }
    let plano = PlanoImportacao { pasta, itens };
    proof {
        assert(vista_importados(plano.itens@) =~= itens_importados_de(conteudo, doc.itens)) by {
            assert forall|j: int|
                0 <= j < plano.itens@.len() implies #[trigger] vista_importados(plano.itens@)[j]
                == itens_importados_de(conteudo, doc.itens)[j] by {
                assert(vista_importados(plano.itens@)[j] == plano.itens@[j]@);
                assert(itens_importados_de(conteudo, doc.itens)[j] == item_importado_de(
                    conteudo,
                    doc.itens[j],
                ));
            }
        }
    }
    Ok(plano)
}

// =============================================================================
// Leis do pacote
// =============================================================================

/// Ida e volta de um pacote: sobre o conteúdo que `exportar_pacote_pasta`
/// monta, a validação da importação aceita e devolve exatamente o manifesto e
/// o documento gravados — nenhum campo da pasta ou dos itens se perde — e
/// cada anexo dado está em sua entrada com os bytes exatos. Com o contrato de
/// `importar_pacote`, todo pacote exportado importa os mesmos itens, com os
/// mesmos anexos, byte a byte.
#[verifier::rlimit(100)]
#[verifier::spinoff_prover]
pub proof fn lei_ida_e_volta_pacote(
    doc: DocumentoPacoteVista,
    anexos: Seq<(Seq<char>, Seq<u8>)>,
    versao_app: Seq<char>,
    versao_schema: int,
    data: Seq<char>,
    total_itens: int,
    versao_suportada: int,
)
    requires
        caminhos_unicos(anexos),
        0 <= versao_schema <= versao_suportada <= i32::MAX,
        0 <= total_itens <= i64::MAX,
        0 <= anexos.len() <= i64::MAX,
    ensures
        ({
            let m = manifesto_do_pacote(anexos, versao_app, versao_schema, data, total_itens);
            let conteudo = modelo_pacote(doc, anexos, m);
            &&& validacao_pacote(conteudo, versao_suportada) == Ok::<
                (ManifestoVista, DocumentoPacoteVista),
                ErroBackup,
            >((m, doc))
            &&& forall|i: int|
                0 <= i < anexos.len() ==> {
                    let pa = #[trigger] anexos[i];
                    conteudo.contains_key(nome_entrada_anexo(pa.0)) && conteudo[nome_entrada_anexo(
                        pa.0,
                    )] == pa.1
                }
        }),
{
    let m = manifesto_do_pacote(anexos, versao_app, versao_schema, data, total_itens);
    let es = entradas_do_pacote(doc, anexos, m);
    let conteudo = modelo_pacote(doc, anexos, m);
    let n = anexos.len() as int;
    lema_entradas_do_pacote_unicas(doc, anexos, m);
    assert(es[n + 1] == ("manifesto.json"@, codifica_manifesto(m)));
    assert(es[0] == ("dados.json"@, codifica_documento(doc)));
    crate::arquivo_zip::lema_mapa_de_entradas(es, "manifesto.json"@);
    crate::arquivo_zip::lema_mapa_de_entradas(es, "dados.json"@);
    assert(conteudo.contains_key("manifesto.json"@));
    assert(conteudo["manifesto.json"@] == codifica_manifesto(m));
    crate::manifesto::lema_manifesto_ida_e_volta(m);
    assert(conteudo.contains_key("dados.json"@));
    assert(conteudo["dados.json"@] == codifica_documento(doc));
    lema_documento_ida_e_volta(doc);
    assert forall|i: int| 0 <= i < anexos.len() implies {
        let pa = #[trigger] anexos[i];
        conteudo.contains_key(nome_entrada_anexo(pa.0)) && conteudo[nome_entrada_anexo(pa.0)]
            == pa.1
    } by {
        let pa = anexos[i];
        assert(es[i + 1] == (nome_entrada_anexo(pa.0), pa.1));
        crate::arquivo_zip::lema_mapa_de_entradas(es, nome_entrada_anexo(pa.0));
    }
}

/// Isolamento de pacote: o plano de importação sempre nomeia a pasta de
/// destino com o marcador ` (importado)` e nunca reaproveita identidade
/// alguma do pacote — os registros do plano nem carregam ids. As identidades
/// novas (da pasta, dos itens e dos anexos) vêm do cofre de destino ao
/// aplicar o plano, de modo que duas importações do mesmo pacote produzem
/// duas pastas distintas e itens e anexos sem colisão de identidade.
pub proof fn lei_isolamento_importacao(
    conteudo: Map<Seq<char>, Seq<u8>>,
    versao_suportada: int,
    doc: DocumentoPacoteVista,
    m: ManifestoVista,
)
    requires
        validacao_pacote(conteudo, versao_suportada) == Ok::<
            (ManifestoVista, DocumentoPacoteVista),
            ErroBackup,
        >((m, doc)),
    ensures
        itens_importados_de(conteudo, doc.itens).len() == doc.itens.len(),
        forall|i: int|
            0 <= i < doc.itens.len() ==> (#[trigger] itens_importados_de(conteudo, doc.itens)[i]).titulo
                == doc.itens[i].titulo,
{
    assert forall|i: int|
        0 <= i < doc.itens.len() implies (#[trigger] itens_importados_de(
        conteudo,
        doc.itens,
    )[i]).titulo == doc.itens[i].titulo by {
        assert(itens_importados_de(conteudo, doc.itens)[i] == item_importado_de(
            conteudo,
            doc.itens[i],
        ));
    }
}

} // verus!

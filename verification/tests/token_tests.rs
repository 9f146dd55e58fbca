//! End-to-end token tests with real RSA keys. The two signing keys are
//! test-only key material generated for this suite, held as DER bytes and
//! rendered to PEM text at run time; every token is built at run time.

use base64::Engine;
use fluff_auth::claims::UserJWT;
use fluff_auth::token::{issue_token, validate_token};
use fluff_auth::user::User;

const KEY1_PRIVATE_DER: &[u8] = &[
    48, 130, 4, 190, 2, 1, 0, 48, 13, 6, 9, 42, 134, 72, 134, 247, 13, 1, 1, 1, 5, 0, 4, 130, 4,
    168, 48, 130, 4, 164, 2, 1, 0, 2, 130, 1, 1, 0, 148, 65, 110, 246, 104, 75, 122, 58, 54, 6,
    189, 159, 135, 50, 159, 214, 88, 96, 178, 11, 251, 95, 204, 104, 255, 95, 39, 127, 56, 4,
    171, 77, 207, 129, 202, 252, 205, 79, 37, 125, 178, 8, 91, 1, 70, 163, 31, 245, 153, 186,
    136, 69, 16, 220, 248, 206, 184, 168, 80, 95, 98, 41, 143, 163, 216, 19, 126, 84, 191, 236,
    126, 77, 234, 153, 155, 54, 57, 44, 178, 213, 124, 136, 50, 135, 120, 191, 221, 29, 228,
    119, 142, 30, 168, 236, 96, 26, 247, 27, 75, 50, 108, 114, 96, 240, 242, 105, 240, 213, 8,
    209, 75, 181, 232, 71, 92, 228, 182, 174, 171, 60, 220, 235, 59, 66, 249, 35, 170, 150, 4,
    70, 193, 196, 17, 95, 92, 133, 254, 216, 199, 154, 158, 194, 45, 220, 73, 181, 187, 226,
    171, 1, 203, 119, 78, 243, 8, 224, 174, 114, 242, 113, 235, 247, 141, 21, 84, 160, 20, 42,
    173, 161, 227, 163, 222, 220, 212, 179, 244, 243, 134, 45, 70, 247, 104, 205, 194, 198, 203,
    54, 170, 186, 81, 118, 246, 123, 157, 216, 111, 43, 20, 244, 94, 138, 23, 86, 93, 63, 98,
    155, 233, 26, 143, 214, 80, 29, 39, 207, 117, 120, 248, 221, 160, 251, 160, 140, 156, 207,
    91, 53, 37, 59, 49, 54, 239, 158, 60, 192, 112, 167, 203, 212, 216, 215, 184, 189, 63, 11,
    253, 233, 73, 115, 200, 112, 105, 49, 35, 31, 2, 3, 1, 0, 1, 2, 130, 1, 0, 50, 251, 203,
    150, 134, 104, 74, 104, 193, 82, 145, 28, 78, 200, 156, 138, 0, 75, 132, 127, 53, 91, 140,
    246, 160, 183, 142, 228, 35, 150, 11, 121, 15, 62, 193, 217, 45, 27, 166, 55, 115, 37, 135,
    114, 73, 97, 232, 168, 51, 205, 31, 118, 172, 229, 104, 212, 226, 80, 211, 142, 241, 185,
    124, 49, 170, 169, 141, 124, 196, 161, 166, 15, 210, 121, 47, 148, 182, 149, 198, 12, 63,
    174, 176, 189, 192, 203, 46, 85, 204, 207, 70, 123, 9, 185, 124, 21, 89, 220, 51, 128, 108,
    37, 235, 107, 128, 217, 232, 221, 194, 18, 3, 184, 211, 95, 211, 52, 190, 20, 20, 68, 50,
    110, 220, 170, 219, 245, 165, 128, 58, 116, 80, 174, 193, 213, 113, 227, 146, 137, 100, 217,
    140, 218, 211, 188, 232, 189, 177, 89, 56, 220, 73, 24, 165, 31, 242, 213, 30, 44, 181, 204,
    174, 103, 164, 176, 216, 57, 245, 189, 141, 224, 69, 116, 140, 5, 45, 238, 34, 214, 7, 70,
    122, 122, 209, 253, 213, 201, 4, 188, 165, 147, 19, 211, 144, 132, 65, 114, 73, 220, 119,
    132, 51, 1, 200, 236, 214, 222, 124, 98, 101, 236, 154, 179, 247, 96, 254, 182, 70, 226,
    199, 144, 23, 251, 129, 172, 46, 122, 93, 121, 236, 199, 0, 98, 231, 199, 220, 173, 91, 183,
    57, 67, 197, 97, 222, 60, 191, 54, 210, 180, 129, 8, 135, 137, 230, 245, 36, 125, 2, 129,
    129, 0, 202, 12, 118, 24, 98, 113, 225, 199, 228, 144, 168, 28, 56, 67, 100, 222, 146, 164,
    146, 163, 220, 169, 179, 232, 72, 2, 78, 15, 66, 16, 1, 199, 68, 201, 235, 9, 248, 242, 190,
    229, 71, 126, 240, 207, 132, 141, 213, 82, 14, 23, 29, 79, 143, 125, 0, 20, 130, 175, 254,
    55, 61, 209, 148, 187, 175, 110, 22, 199, 112, 244, 51, 101, 37, 24, 153, 226, 151, 197,
    111, 82, 66, 79, 58, 170, 84, 137, 221, 120, 111, 197, 21, 116, 208, 244, 242, 222, 191,
    136, 202, 110, 222, 172, 115, 180, 189, 130, 102, 67, 169, 240, 30, 52, 174, 149, 143, 118,
    190, 137, 80, 203, 71, 219, 98, 183, 36, 250, 229, 213, 2, 129, 129, 0, 187, 215, 208, 21,
    231, 198, 193, 47, 44, 214, 55, 193, 194, 253, 226, 69, 239, 84, 248, 239, 231, 181, 84,
    228, 62, 141, 92, 241, 46, 193, 93, 210, 24, 36, 219, 112, 213, 83, 173, 151, 117, 170, 129,
    198, 231, 119, 211, 216, 151, 209, 142, 19, 220, 134, 254, 184, 154, 253, 105, 219, 26, 27,
    52, 169, 141, 201, 82, 230, 126, 255, 130, 19, 59, 31, 230, 117, 42, 73, 193, 239, 81, 26,
    100, 254, 110, 204, 200, 59, 140, 191, 83, 199, 59, 132, 246, 222, 36, 183, 113, 208, 12, 9,
    162, 172, 162, 219, 250, 152, 60, 202, 177, 114, 173, 73, 109, 246, 6, 110, 50, 120, 215,
    24, 134, 58, 81, 237, 91, 35, 2, 129, 129, 0, 164, 244, 81, 130, 12, 245, 78, 208, 196, 145,
    57, 62, 120, 204, 196, 208, 85, 198, 152, 149, 193, 52, 167, 85, 175, 92, 122, 96, 72, 158,
    10, 229, 166, 10, 119, 162, 151, 165, 143, 38, 95, 29, 138, 250, 209, 12, 126, 169, 84, 41,
    152, 219, 120, 153, 35, 244, 154, 209, 150, 105, 129, 69, 214, 248, 247, 251, 152, 11, 81,
    243, 124, 246, 73, 183, 241, 2, 166, 200, 32, 223, 118, 149, 122, 158, 207, 16, 19, 73, 29,
    111, 56, 218, 59, 50, 144, 10, 61, 51, 47, 154, 30, 159, 138, 131, 119, 232, 187, 22, 232,
    233, 201, 175, 87, 13, 113, 168, 15, 92, 202, 34, 124, 82, 231, 32, 0, 199, 249, 213, 2,
    129, 128, 67, 204, 222, 207, 185, 75, 245, 24, 184, 255, 77, 58, 195, 205, 237, 169, 62,
    124, 150, 41, 201, 161, 154, 213, 147, 122, 100, 204, 173, 10, 160, 121, 159, 187, 85, 245,
    129, 26, 101, 242, 224, 70, 189, 246, 244, 63, 61, 24, 213, 155, 142, 195, 190, 122, 127,
    96, 84, 153, 25, 103, 59, 34, 12, 189, 18, 111, 83, 91, 221, 5, 14, 135, 48, 117, 16, 50,
    196, 35, 193, 59, 71, 51, 214, 182, 59, 121, 240, 224, 5, 170, 93, 107, 241, 32, 202, 22,
    94, 124, 84, 57, 58, 207, 19, 135, 106, 117, 42, 27, 94, 253, 238, 84, 173, 21, 110, 250,
    57, 81, 247, 39, 196, 195, 150, 87, 96, 144, 226, 175, 2, 129, 129, 0, 162, 217, 198, 63,
    129, 186, 181, 155, 137, 90, 104, 15, 100, 25, 96, 18, 41, 158, 139, 140, 253, 200, 207,
    136, 51, 149, 37, 204, 121, 184, 144, 116, 109, 94, 179, 243, 113, 222, 104, 155, 97, 103,
    208, 251, 200, 237, 243, 170, 0, 56, 142, 80, 86, 60, 75, 201, 36, 116, 169, 217, 83, 169,
    209, 96, 17, 146, 169, 150, 82, 232, 161, 134, 229, 248, 219, 55, 179, 36, 145, 41, 61, 170,
    203, 226, 205, 146, 132, 46, 6, 8, 233, 40, 163, 132, 76, 31, 173, 87, 129, 130, 84, 208,
    97, 119, 225, 37, 209, 50, 198, 15, 108, 1, 57, 7, 163, 155, 53, 193, 85, 97, 224, 94, 244,
    107, 93, 28, 53, 76,
];

const KEY2_PRIVATE_DER: &[u8] = &[
    48, 130, 4, 190, 2, 1, 0, 48, 13, 6, 9, 42, 134, 72, 134, 247, 13, 1, 1, 1, 5, 0, 4, 130, 4,
    168, 48, 130, 4, 164, 2, 1, 0, 2, 130, 1, 1, 0, 169, 14, 5, 12, 93, 32, 142, 1, 39, 251,
    182, 191, 252, 81, 237, 172, 152, 119, 36, 79, 119, 130, 1, 122, 8, 218, 92, 155, 31, 82,
    189, 181, 88, 149, 37, 35, 103, 116, 70, 148, 186, 212, 44, 140, 224, 60, 7, 10, 236, 183,
    34, 9, 203, 53, 177, 131, 33, 254, 222, 172, 219, 90, 183, 255, 142, 29, 55, 78, 46, 47,
    139, 147, 116, 215, 180, 148, 68, 95, 157, 53, 209, 173, 5, 40, 194, 19, 253, 241, 215, 0,
    108, 76, 86, 114, 168, 212, 48, 181, 47, 38, 227, 149, 207, 234, 68, 206, 65, 117, 232, 14,
    216, 237, 143, 222, 232, 2, 0, 158, 30, 192, 70, 233, 3, 31, 188, 52, 40, 243, 19, 166, 187,
    147, 33, 88, 154, 112, 248, 196, 70, 100, 111, 143, 247, 79, 7, 216, 122, 4, 73, 149, 87,
    26, 134, 76, 81, 195, 111, 203, 209, 220, 60, 172, 13, 133, 155, 173, 48, 31, 137, 167, 6,
    135, 63, 8, 182, 154, 40, 61, 7, 120, 215, 17, 86, 162, 248, 180, 161, 112, 170, 112, 187,
    163, 40, 193, 149, 183, 30, 244, 108, 167, 21, 147, 95, 193, 51, 112, 243, 157, 194, 225,
    60, 160, 180, 227, 123, 102, 74, 186, 8, 146, 178, 134, 124, 233, 223, 93, 69, 183, 102, 68,
    194, 130, 158, 195, 147, 13, 172, 48, 22, 153, 31, 95, 95, 195, 41, 154, 149, 97, 159, 34,
    146, 253, 127, 229, 150, 135, 2, 3, 1, 0, 1, 2, 130, 1, 0, 14, 84, 195, 57, 101, 49, 165,
    104, 33, 21, 175, 127, 113, 247, 23, 164, 51, 184, 49, 228, 28, 177, 189, 200, 231, 231,
    107, 197, 181, 124, 93, 168, 19, 155, 61, 34, 8, 231, 210, 205, 235, 236, 58, 119, 204, 208,
    134, 179, 29, 22, 69, 167, 236, 176, 57, 67, 112, 70, 59, 102, 14, 33, 246, 138, 143, 1, 24,
    112, 214, 237, 71, 229, 176, 229, 31, 34, 25, 90, 35, 169, 33, 55, 190, 245, 30, 121, 39,
    151, 112, 231, 208, 147, 68, 128, 107, 162, 24, 130, 142, 189, 161, 134, 207, 253, 115, 153,
    144, 243, 167, 242, 244, 171, 1, 74, 146, 28, 64, 139, 192, 145, 206, 106, 175, 0, 208, 3,
    19, 143, 120, 76, 55, 50, 133, 254, 140, 238, 13, 184, 94, 125, 58, 70, 76, 44, 144, 149,
    98, 39, 6, 188, 185, 249, 94, 208, 140, 73, 253, 17, 82, 210, 155, 60, 143, 242, 22, 40,
    244, 196, 6, 160, 41, 199, 15, 133, 63, 25, 227, 0, 174, 35, 96, 72, 29, 238, 235, 193, 89,
    34, 235, 81, 181, 125, 226, 218, 59, 73, 118, 183, 61, 98, 212, 111, 15, 76, 109, 193, 235,
    41, 201, 150, 226, 211, 64, 86, 67, 226, 143, 122, 11, 28, 116, 115, 178, 182, 81, 111, 1,
    174, 112, 241, 122, 200, 172, 225, 47, 237, 74, 85, 83, 185, 163, 217, 211, 92, 235, 213,
    142, 13, 47, 126, 121, 243, 191, 129, 115, 5, 2, 129, 129, 0, 225, 52, 66, 48, 198, 252, 47,
    229, 141, 85, 237, 150, 144, 146, 7, 10, 163, 28, 238, 120, 87, 65, 223, 52, 51, 162, 135,
    210, 130, 58, 48, 60, 19, 187, 94, 148, 59, 65, 116, 224, 158, 123, 54, 97, 0, 247, 105,
    124, 88, 6, 0, 186, 124, 143, 48, 157, 113, 111, 108, 62, 64, 141, 198, 88, 62, 191, 109,
    151, 117, 27, 182, 94, 218, 150, 45, 121, 241, 83, 169, 11, 131, 0, 47, 161, 129, 247, 49,
    189, 203, 35, 166, 237, 250, 165, 166, 196, 41, 210, 61, 151, 73, 91, 165, 17, 57, 128, 236,
    178, 113, 85, 45, 26, 204, 97, 253, 77, 245, 112, 244, 201, 174, 179, 56, 226, 167, 239,
    198, 181, 2, 129, 129, 0, 192, 44, 34, 149, 112, 224, 85, 133, 244, 254, 95, 254, 28, 213,
    73, 27, 220, 35, 148, 133, 185, 246, 242, 58, 215, 86, 75, 59, 97, 40, 48, 142, 91, 97, 36,
    228, 165, 18, 88, 185, 187, 157, 28, 138, 214, 80, 244, 24, 100, 240, 190, 188, 253, 27, 99,
    50, 220, 123, 14, 77, 165, 242, 240, 19, 165, 40, 26, 252, 161, 46, 253, 106, 87, 118, 44,
    191, 218, 101, 231, 234, 146, 41, 202, 67, 138, 70, 25, 82, 2, 159, 29, 41, 68, 1, 141, 218,
    128, 119, 232, 137, 69, 216, 151, 3, 197, 106, 42, 173, 98, 184, 193, 122, 234, 91, 10, 4,
    65, 106, 125, 14, 64, 238, 137, 91, 135, 237, 17, 203, 2, 129, 129, 0, 154, 132, 38, 158,
    29, 9, 79, 59, 171, 59, 183, 230, 68, 143, 76, 241, 137, 117, 2, 81, 227, 92, 184, 238, 178,
    54, 228, 6, 21, 128, 35, 52, 53, 61, 171, 232, 252, 183, 46, 160, 39, 92, 214, 180, 187,
    219, 5, 175, 97, 29, 205, 70, 38, 204, 128, 72, 166, 90, 18, 228, 171, 154, 26, 234, 213,
    50, 182, 216, 226, 106, 255, 56, 25, 182, 76, 193, 140, 73, 32, 133, 91, 126, 183, 47, 147,
    98, 173, 232, 81, 6, 199, 52, 37, 115, 158, 246, 156, 211, 57, 155, 33, 164, 21, 159, 185,
    218, 177, 140, 197, 161, 241, 110, 159, 168, 228, 9, 167, 75, 183, 72, 225, 234, 234, 46,
    233, 150, 228, 185, 2, 129, 128, 5, 135, 191, 159, 9, 86, 139, 95, 133, 131, 100, 131, 205,
    148, 157, 187, 253, 131, 208, 156, 96, 147, 168, 184, 228, 197, 136, 248, 182, 125, 15, 152,
    169, 44, 140, 129, 63, 246, 221, 50, 203, 33, 100, 86, 226, 128, 5, 230, 69, 209, 95, 203,
    212, 132, 219, 63, 245, 116, 93, 31, 2, 237, 144, 215, 31, 227, 157, 147, 51, 152, 68, 150,
    176, 217, 167, 196, 5, 166, 245, 27, 157, 5, 50, 218, 234, 185, 197, 180, 196, 122, 139,
    190, 74, 68, 185, 46, 86, 144, 28, 211, 6, 125, 139, 43, 2, 157, 97, 137, 7, 212, 69, 77,
    34, 61, 104, 118, 98, 227, 139, 161, 195, 96, 153, 247, 86, 92, 14, 45, 2, 129, 129, 0, 167,
    218, 117, 241, 151, 3, 74, 171, 83, 128, 114, 139, 214, 13, 133, 90, 118, 106, 243, 65, 200,
    157, 115, 144, 228, 66, 42, 233, 71, 14, 205, 52, 203, 232, 104, 122, 159, 109, 227, 39,
    236, 86, 17, 103, 58, 206, 5, 119, 5, 198, 172, 164, 204, 69, 181, 75, 185, 13, 44, 145,
    104, 232, 156, 185, 90, 155, 182, 4, 230, 121, 69, 228, 221, 87, 38, 235, 74, 184, 253, 79,
    126, 49, 102, 210, 8, 196, 165, 72, 120, 207, 218, 218, 245, 81, 253, 157, 222, 74, 80, 213,
    88, 60, 27, 185, 75, 175, 19, 224, 153, 22, 84, 133, 175, 226, 143, 182, 174, 137, 227, 108,
    87, 93, 52, 222, 77, 106, 67, 161,
];

const KEY1_PUBLIC: &str = "-----BEGIN PUBLIC KEY-----\nMIIBIjANBgkqhkiG9w0BAQEFAAOCAQ8AMIIBCgKCAQEAlEFu9mhLejo2Br2fhzKf\n1lhgsgv7X8xo/18nfzgEq03Pgcr8zU8lfbIIWwFGox/1mbqIRRDc+M64qFBfYimP\no9gTflS/7H5N6pmbNjksstV8iDKHeL/dHeR3jh6o7GAa9xtLMmxyYPDyafDVCNFL\ntehHXOS2rqs83Os7QvkjqpYERsHEEV9chf7Yx5qewi3cSbW74qsBy3dO8wjgrnLy\ncev3jRVUoBQqraHjo97c1LP084YtRvdozcLGyzaqulF29nud2G8rFPReihdWXT9i\nm+kaj9ZQHSfPdXj43aD7oIycz1s1JTsxNu+ePMBwp8vU2Ne4vT8L/elJc8hwaTEj\nHwIDAQAB\n-----END PUBLIC KEY-----\n";

const KEY2_PUBLIC: &str = "-----BEGIN PUBLIC KEY-----\nMIIBIjANBgkqhkiG9w0BAQEFAAOCAQ8AMIIBCgKCAQEAqQ4FDF0gjgEn+7a//FHt\nrJh3JE93ggF6CNpcmx9SvbVYlSUjZ3RGlLrULIzgPAcK7LciCcs1sYMh/t6s21q3\n/44dN04uL4uTdNe0lERfnTXRrQUowhP98dcAbExWcqjUMLUvJuOVz+pEzkF16A7Y\n7Y/e6AIAnh7ARukDH7w0KPMTpruTIViacPjERmRvj/dPB9h6BEmVVxqGTFHDb8vR\n3DysDYWbrTAfiacGhz8ItpooPQd41xFWovi0oXCqcLujKMGVtx70bKcVk1/BM3Dz\nncLhPKC043tmSroIkrKGfOnfXUW3ZkTCgp7Dkw2sMBaZH19fwymalWGfIpL9f+WW\nhwIDAQAB\n-----END PUBLIC KEY-----\n";

const NOW: u64 = 1700000000;

/// Renders DER bytes as a PEM block with the given label, the form the key
/// resolver hands out.
fn pem_from_der(label: &str, der: &[u8]) -> Vec<u8> {
    let b64 = base64::engine::general_purpose::STANDARD.encode(der);
    let mut s = format!("-----BEGIN {}-----\n", label);
    let bytes = b64.as_bytes();
    let mut i = 0;
    while i < bytes.len() {
        let end = (i + 64).min(bytes.len());
        s.push_str(std::str::from_utf8(&bytes[i..end]).unwrap());
        s.push('\n');
        i = end;
    }
    s.push_str(&format!("-----END {}-----\n", label));
    s.into_bytes()
}

fn key1_private() -> Vec<u8> {
    pem_from_der("PRIVATE KEY", KEY1_PRIVATE_DER)
}

fn key2_private() -> Vec<u8> {
    pem_from_der("PRIVATE KEY", KEY2_PRIVATE_DER)
}

fn pem(s: &str) -> Vec<u8> {
    s.as_bytes().to_vec()
}

fn sample_user() -> User {
    User {
        id: "12345".to_string(),
        username: "fluffy".to_string(),
        display_name: "Fluffy Fox".to_string(),
        email: Some("fluffy@example.com".to_string()),
        profile_picture: Some("https://example.com/pic.png".to_string()),
        permissions: vec!["events:read".to_string(), "events:write".to_string()],
    }
}

fn b64(data: &[u8]) -> String {
    base64::engine::general_purpose::URL_SAFE_NO_PAD.encode(data)
}

/// Assembles and signs a token over an arbitrary payload, independently of
/// the library's own signer.
fn sign_raw(payload_json: &str, private_pem: &[u8]) -> String {
    let header = "{\"typ\":\"JWT\",\"alg\":\"RS512\"}";
    let msg = format!("{}.{}", b64(header.as_bytes()), b64(payload_json.as_bytes()));
    let key = jsonwebtoken::EncodingKey::from_rsa_pem(private_pem).unwrap();
    let sig =
        jsonwebtoken::crypto::sign(msg.as_bytes(), &key, jsonwebtoken::Algorithm::RS512).unwrap();
    format!("{}.{}", msg, sig)
}

fn canonical_payload(iss: &str, sub: &str, aud: &str, nbf: u64, exp: u64, iat: u64) -> String {
    format!(
        "{{\"iss\":\"{}\",\"sub\":\"{}\",\"aud\":[\"{}\"],\"nbf\":{},\"exp\":{},\"iat\":{},\"name\":\"n\",\"display_name\":\"d\",\"picture\":\"p\",\"scope\":[\"s\"]}}",
        iss, sub, aud, nbf, exp, iat
    )
}

#[test]
fn round_trip_issue_validate() {
    let user = sample_user();
    let claims = UserJWT::generate_for_user_at(&user, NOW);
    let token = claims.sign(&key1_private()).unwrap();
    // The wire shape: three segments, the first the fixed header.
    let parts: Vec<&str> = token.split('.').collect();
    assert_eq!(parts.len(), 3);
    let header = base64::engine::general_purpose::URL_SAFE_NO_PAD.decode(parts[0]).unwrap();
    assert_eq!(header, b"{\"typ\":\"JWT\",\"alg\":\"RS512\"}");
    // Validation recovers exactly the issued claims.
    let out = UserJWT::verify_at(&token, &pem(KEY1_PUBLIC), NOW).unwrap();
    assert_eq!(out.sub, user.id);
    assert_eq!(out.name, user.username);
    assert_eq!(out.display_name, user.display_name);
    assert_eq!(out.scope, user.permissions);
    assert_eq!(out.iss, "https://auth.fluffevent.fr");
    assert_eq!(out.aud, vec!["fluffevent.fr".to_string()]);
    assert_eq!(out.picture, "https://example.com/pic.png");
    assert_eq!(out.nbf, NOW - 300);
    assert_eq!(out.exp, NOW + 604800);
    assert_eq!(out.iat, NOW);
}

#[test]
fn round_trip_with_special_characters() {
    let mut user = sample_user();
    user.username = "qu\"ote back\\slash".to_string();
    user.display_name = "line\nbreak\ttab\u{1}ctl caf\u{e9} \u{1F98A}".to_string();
    let claims = UserJWT::generate_for_user_at(&user, NOW);
    let token = claims.sign(&key1_private()).unwrap();
    let out = UserJWT::verify_at(&token, &pem(KEY1_PUBLIC), NOW).unwrap();
    assert_eq!(out.name, user.username);
    assert_eq!(out.display_name, user.display_name);
}

#[test]
fn token_signed_with_other_key_is_rejected() {
    let user = sample_user();
    let claims = UserJWT::generate_for_user_at(&user, NOW);
    let token = claims.sign(&key2_private()).unwrap();
    let err = UserJWT::verify_at(&token, &pem(KEY1_PUBLIC), NOW).unwrap_err();
    assert_eq!(err.error_name, "JWTDecodingFailed");
    assert_eq!(err.http_code, 500);
    assert!(err.can_retry);
    // The same token is fine under its own public key.
    assert!(UserJWT::verify_at(&token, &pem(KEY2_PUBLIC), NOW).is_ok());
}

#[test]
fn malformed_private_key_is_reported() {
    let user = sample_user();
    let claims = UserJWT::generate_for_user_at(&user, NOW);
    let err = claims.sign(&pem("not a key")).unwrap_err();
    assert_eq!(err.error_name, "PrivateKeyError");
}

#[test]
fn malformed_public_key_is_reported() {
    let user = sample_user();
    let claims = UserJWT::generate_for_user_at(&user, NOW);
    let token = claims.sign(&key1_private()).unwrap();
    let err = UserJWT::verify_at(&token, &pem("not a key"), NOW).unwrap_err();
    assert_eq!(err.error_name, "PublicKeyError");
}

fn claims_with_exp(exp: u64) -> UserJWT {
    UserJWT {
        iss: "https://auth.fluffevent.fr".to_string(),
        sub: "12345".to_string(),
        aud: vec!["fluffevent.fr".to_string()],
        nbf: NOW - 300,
        exp,
        iat: NOW,
        name: "n".to_string(),
        display_name: "d".to_string(),
        picture: "p".to_string(),
        scope: vec!["s".to_string()],
    }
}

#[test]
fn expiry_one_second_past_leeway_is_rejected() {
    let claims = claims_with_exp(NOW - 300 - 1);
    let token = claims.sign(&key1_private()).unwrap();
    let err = UserJWT::verify_at(&token, &pem(KEY1_PUBLIC), NOW).unwrap_err();
    assert_eq!(err.error_name, "JWTDecodingFailed");
}

#[test]
fn expiry_one_second_within_leeway_is_accepted() {
    let claims = claims_with_exp(NOW - 300 + 1);
    let token = claims.sign(&key1_private()).unwrap();
    assert!(UserJWT::verify_at(&token, &pem(KEY1_PUBLIC), NOW).is_ok());
}

#[test]
fn not_before_boundary() {
    let mut claims = claims_with_exp(NOW + 604800);
    claims.nbf = NOW + 300 + 1;
    let token = claims.sign(&key1_private()).unwrap();
    assert!(UserJWT::verify_at(&token, &pem(KEY1_PUBLIC), NOW).is_err());
    claims.nbf = NOW + 300 - 1;
    let token = claims.sign(&key1_private()).unwrap();
    assert!(UserJWT::verify_at(&token, &pem(KEY1_PUBLIC), NOW).is_ok());
}

#[test]
fn wrong_issuer_is_rejected() {
    let payload = canonical_payload(
        "https://other.example.com",
        "12345",
        "fluffevent.fr",
        NOW - 300,
        NOW + 604800,
        NOW,
    );
    let token = sign_raw(&payload, &key1_private());
    assert!(UserJWT::verify_at(&token, &pem(KEY1_PUBLIC), NOW).is_err());
}

#[test]
fn wrong_audience_is_rejected() {
    let payload = canonical_payload(
        "https://auth.fluffevent.fr",
        "12345",
        "other.example.com",
        NOW - 300,
        NOW + 604800,
        NOW,
    );
    let token = sign_raw(&payload, &key1_private());
    assert!(UserJWT::verify_at(&token, &pem(KEY1_PUBLIC), NOW).is_err());
}

#[test]
fn missing_claim_is_rejected_even_with_valid_signature() {
    // Validly signed, but the iat claim is absent.
    let no_iat = format!(
        "{{\"iss\":\"https://auth.fluffevent.fr\",\"sub\":\"1\",\"aud\":[\"fluffevent.fr\"],\"nbf\":{},\"exp\":{},\"name\":\"n\",\"display_name\":\"d\",\"picture\":\"p\",\"scope\":[\"s\"]}}",
        NOW - 300,
        NOW + 604800
    );
    let token = sign_raw(&no_iat, &key1_private());
    let err = UserJWT::verify_at(&token, &pem(KEY1_PUBLIC), NOW).unwrap_err();
    assert_eq!(err.error_name, "JWTDecodingFailed");
}

#[test]
fn missing_scope_claim_is_rejected() {
    let no_scope = format!(
        "{{\"iss\":\"https://auth.fluffevent.fr\",\"sub\":\"1\",\"aud\":[\"fluffevent.fr\"],\"nbf\":{},\"exp\":{},\"iat\":{},\"name\":\"n\",\"display_name\":\"d\",\"picture\":\"p\"}}",
        NOW - 300,
        NOW + 604800,
        NOW
    );
    let token = sign_raw(&no_scope, &key1_private());
    assert!(UserJWT::verify_at(&token, &pem(KEY1_PUBLIC), NOW).is_err());
}

#[test]
fn missing_sub_claim_is_rejected() {
    let no_sub = format!(
        "{{\"iss\":\"https://auth.fluffevent.fr\",\"aud\":[\"fluffevent.fr\"],\"nbf\":{},\"exp\":{},\"iat\":{},\"name\":\"n\",\"display_name\":\"d\",\"picture\":\"p\",\"scope\":[\"s\"]}}",
        NOW - 300,
        NOW + 604800,
        NOW
    );
    let token = sign_raw(&no_sub, &key1_private());
    assert!(UserJWT::verify_at(&token, &pem(KEY1_PUBLIC), NOW).is_err());
}

#[test]
fn alg_none_token_is_rejected() {
    let payload = canonical_payload(
        "https://auth.fluffevent.fr",
        "12345",
        "fluffevent.fr",
        NOW - 300,
        NOW + 604800,
        NOW,
    );
    let header = "{\"typ\":\"JWT\",\"alg\":\"none\"}";
    let token = format!("{}.{}.", b64(header.as_bytes()), b64(payload.as_bytes()));
    assert!(UserJWT::verify_at(&token, &pem(KEY1_PUBLIC), NOW).is_err());
}

#[test]
fn garbage_tokens_are_rejected() {
    let pk = pem(KEY1_PUBLIC);
    assert!(UserJWT::verify_at("", &pk, NOW).is_err());
    assert!(UserJWT::verify_at("abc", &pk, NOW).is_err());
    assert!(UserJWT::verify_at("a.b", &pk, NOW).is_err());
    assert!(UserJWT::verify_at("a.b.c.d", &pk, NOW).is_err());
    assert!(UserJWT::verify_at("!!.??.::", &pk, NOW).is_err());
}

#[test]
fn our_token_is_accepted_by_jsonwebtoken() {
    let user = sample_user();
    let claims = UserJWT::generate_for_user_at(&user, NOW);
    let token = claims.sign(&key1_private()).unwrap();
    let key = jsonwebtoken::DecodingKey::from_rsa_pem(KEY1_PUBLIC.as_bytes()).unwrap();
    let mut validation = jsonwebtoken::Validation::new(jsonwebtoken::Algorithm::RS512);
    validation.set_issuer(&["https://auth.fluffevent.fr"]);
    validation.set_audience(&["fluffevent.fr"]);
    validation.leeway = 300;
    validation.validate_exp = false;
    validation.validate_nbf = false;
    let data: jsonwebtoken::TokenData<serde_json::Value> =
        jsonwebtoken::decode(&token, &key, &validation).unwrap();
    assert_eq!(data.claims.get("sub").unwrap().as_str().unwrap(), "12345");
    assert_eq!(data.claims.get("iat").unwrap().as_u64().unwrap(), NOW);
    assert_eq!(data.header.alg, jsonwebtoken::Algorithm::RS512);
    assert_eq!(data.header.typ.as_deref(), Some("JWT"));
}

#[test]
fn externally_assembled_canonical_token_is_accepted() {
    let payload = canonical_payload(
        "https://auth.fluffevent.fr",
        "777",
        "fluffevent.fr",
        NOW - 300,
        NOW + 604800,
        NOW,
    );
    let token = sign_raw(&payload, &key1_private());
    let out = UserJWT::verify_at(&token, &pem(KEY1_PUBLIC), NOW).unwrap();
    assert_eq!(out.sub, "777");
    assert_eq!(out.name, "n");
}

#[test]
fn issue_and_validate_with_wall_clock() {
    let user = sample_user();
    let token = issue_token(&user, &key1_private()).unwrap();
    let out = validate_token(&token, &pem(KEY1_PUBLIC)).unwrap();
    assert_eq!(out.sub, user.id);
    assert_eq!(out.exp, out.iat + 604800);
    assert_eq!(out.nbf, out.iat - 300);
}
